//! What holds of the tiler in every state and through every operation.

use vstd::prelude::*;
use crate::animation::{AnimationState, AnimationType, ScrollAnimation};
use crate::easing::{cube, eased_numerator, interpolate, lemma_cube_positive};
use crate::geometry::{clamp_int, max_int, Display, Rect};
use crate::layout::{extent, lemma_limits, same_positions, top_row, ManagedTile};
use crate::model::TilerState;
use crate::packing::{is_packed, lemma_pack_idempotent, lemma_pack_keeps_order, lemma_packed_fits,
    lemma_packed_places, lemma_packing_by_position, lemma_nothing_is_packed, packed, precedes};
use crate::schedule::row_settled;
use crate::viewport::{Limits, ViewportState};

verus! {

/// A recalculation leaves the tiles where packing puts them.
proof fn lemma_recalculated_places(s: TilerState, now: u64)
    requires
        s.wf(),
        s.tiles.len() > 0,
    ensures
        same_positions(s.recalculated(now).tiles, packed(s.tiles, s.display)),
{
    let packed_tiles = packed(s.tiles, s.display);
    let settled = row_settled(packed_tiles, s.projection(), s.viewport.current_row);
    assert(s.recalculated(now).tiles == settled);
    assert forall|i: int| 0 <= i < settled.len() implies (#[trigger] settled[i]).position
        == packed_tiles[i].position by {
    }
}

/// After a recalculation, the tiles of every row lie end to end from x = 0,
/// without gap and without overlap, and in the order from left to right that they had
/// before.
pub proof fn lemma_recalculation_packs(s: TilerState, now: u64)
    requires
        s.wf(),
    ensures
        is_packed(s.recalculated(now).tiles, s.recalculated(now).display),
        s.recalculated(now).tiles.len() == s.tiles.len(),
        forall|a: int, b: int|
            0 <= a < s.tiles.len() && 0 <= b < s.tiles.len() && precedes(s.tiles, a, b)
                ==> #[trigger] s.recalculated(now).tiles[a].end(s.display) <= (
            #[trigger] s.recalculated(now).tiles[b]).position.x,
{
    let after = s.recalculated(now).tiles;
    if s.tiles.len() == 0 {
        lemma_nothing_is_packed(after, s.display);
    } else {
        lemma_recalculated_places(s, now);
        lemma_packed_places(s.tiles, after, s.display);
        assert forall|a: int, b: int|
            0 <= a < s.tiles.len() && 0 <= b < s.tiles.len() && precedes(
                s.tiles,
                a,
                b,
            ) implies #[trigger] after[a].end(s.display) <= (#[trigger] after[b]).position.x by {
            lemma_pack_keeps_order(s.tiles, s.display, a, b);
            assert(after[a].position == packed(s.tiles, s.display)[a].position);
            assert(after[b].position == packed(s.tiles, s.display)[b].position);
        }
    }
}

/// A second recalculation, with nothing done to the tiles in between,
/// leaves every tile where the first one put it.
pub proof fn lemma_recalculation_idempotent(s: TilerState, first: u64, second: u64)
    requires
        s.wf(),
    ensures
        same_positions(s.recalculated(first).recalculated(second).tiles, s.recalculated(first).tiles),
{
    let once = s.recalculated(first);
    let twice = once.recalculated(second);
    if s.tiles.len() > 0 {
        let packed_tiles = packed(s.tiles, s.display);
        lemma_recalculated_places(s, first);
        assert(once.tiles.len() == s.tiles.len());
        assert(once.display == s.display);
        lemma_pack_idempotent(s.tiles, s.display);
        let repacked = packed(once.tiles, once.display);
        let settled = row_settled(repacked, once.projection(), once.viewport.current_row);
        assert(twice.tiles == settled);
        assert forall|i: int| 0 <= i < twice.tiles.len() implies (#[trigger] twice.tiles[i]).position
            == once.tiles[i].position by {
            lemma_packing_by_position(once.tiles, packed_tiles, s.display, i);
            lemma_packed_fits(once.tiles, s.display, i);
            lemma_packed_fits(packed_tiles, s.display, i);
            lemma_packed_fits(s.tiles, s.display, i);
            assert(once.tiles[i].position == packed_tiles[i].position);
            assert(settled[i].position == repacked[i].position);
            assert(packed(packed_tiles, s.display)[i] == packed_tiles[i]);
        }
    }
}

impl TilerState {
    /// The horizontal offset and its target lie between zero and the extent of the
    /// tiles less the display's width, or zero if that is negative; the vertical offset
    /// and its target lie between zero and the top of the one empty row above the
    /// highest row that holds a tile; and the row in view is at most that row.
    pub open spec fn offsets_in_bounds(self) -> bool {
        &&& 0 <= self.viewport.ribbon_offset <= max_int(
            0,
            extent(self.tiles, self.display) - self.display.width,
        )
        &&& 0 <= self.viewport.ribbon_offset_target <= max_int(
            0,
            extent(self.tiles, self.display) - self.display.width,
        )
        &&& 0 <= self.viewport.vertical_offset <= (top_row(self.tiles) + 1) * self.display.height
        &&& 0 <= self.viewport.vertical_offset_target <= (top_row(self.tiles) + 1)
            * self.display.height
        &&& 0 <= self.viewport.current_row <= top_row(self.tiles) + 1
    }

    /// How the viewport of `after` stands to this state's, where `after` has one tile
    /// more, half a display wide, at `x`. Where the new tile lies outside this state's
    /// viewport, in part or whole, the viewport of `after` is where the tile is
    /// centred, as far as the bounds with the new tile allow, and at the top of the
    /// row in view; else it is this state's viewport.
    pub open spec fn centred_for(self, after: TilerState, x: int) -> bool {
        let half = self.display.width / 2;
        let centred = clamp_int(
            x + half / 2 - self.display.width / 2,
            0,
            max_int(0, extent(after.tiles, self.display) - self.display.width),
        );
        if x < self.viewport.ribbon_offset || x + half > self.viewport.ribbon_offset
            + self.display.width {
            &&& after.viewport.ribbon_offset == centred
            &&& after.viewport.ribbon_offset_target == centred
            &&& after.viewport.vertical_offset == self.viewport.current_row * self.display.height
            &&& after.viewport.vertical_offset_target == self.viewport.current_row
                * self.display.height
        } else {
            after.viewport == self.viewport
        }
    }
}

/// In every consistent state, the offsets are in bounds.
pub proof fn lemma_offsets_in_bounds(s: TilerState)
    requires
        s.wf(),
    ensures
        s.offsets_in_bounds(),
{
    lemma_limits(s.tiles, s.display);
}

/// From the end of its duration on, a transition has its tile exactly at
/// the target.
pub proof fn lemma_transition_lands(a: AnimationState, now: u64)
    requires
        now >= a.start_time,
        now - a.start_time >= a.duration,
    ensures
        a.rect_at(now) == a.target_rect,
{
}

/// From the end of its duration on, a scroll has both offsets exactly at
/// their targets.
pub proof fn lemma_scroll_lands(a: ScrollAnimation, now: u64)
    requires
        now >= a.start_time,
        now - a.start_time >= a.duration,
    ensures
        a.offsets_at(now) == (a.target_x as int, a.target_y as int),
{
}

/// A transition that takes the place of one under way starts
/// from the rectangle that the old one has reached at that moment, and, unless it is
/// an entry, has the tile at that very rectangle at that moment.
pub proof fn lemma_supersede_continuity(
    tile: ManagedTile,
    kind: AnimationType,
    rest: Rect,
    target: Rect,
    now: u64,
    duration: u64,
)
    requires
        tile.animation.is_some(),
        tile.animation.unwrap().valid(),
    ensures
        tile.animated_from(kind, rest, target, now, duration).animation.unwrap().start_rect
            == tile.animation.unwrap().rect_at(now),
        kind != AnimationType::Entry && duration > 0 ==> tile.animated_from(
            kind,
            rest,
            target,
            now,
            duration,
        ).rect_at(now) == tile.rect_at(now),
{
    let old_rect = tile.animation.unwrap().rect_at(now);
    let new_tile = tile.animated_from(kind, rest, target, now, duration);
    let b = new_tile.animation.unwrap();
    if kind != AnimationType::Entry && duration > 0 {
        assert(eased_numerator(0, duration as int) == 0);
        lemma_cube_positive(duration as int);
        let den = cube(duration as int);
        assert(0int / den == 0) by (nonlinear_arith)
            requires
                den > 0,
        ;
        assert forall|from: int, to: int| #[trigger] interpolate(from, to, 0, den) == from by {
            assert((to - from) * 0 == 0) by (nonlinear_arith);
        }
        lemma_rect_at_bounded(tile.animation.unwrap(), now);
        assert(b.rect_at(now) == old_rect);
    }
}

/// A scroll that takes the place of one under way starts where the old one has the
/// viewport at that moment, as far as the limits allow, and has the viewport there at
/// that moment.
pub proof fn lemma_scroll_supersede_continuity(v: ViewportState, l: Limits, display: Display, now: u64)
    requires
        l.valid(display),
    ensures
        v.launched(l, now).ribbon_offset == clamp_int(v.offsets_at(now).0, 0, l.max_x as int),
        v.launched(l, now).vertical_offset == clamp_int(v.offsets_at(now).1, 0, l.max_y as int),
        v.launched(l, now).scroll_animation.unwrap().start_x == v.launched(l, now).ribbon_offset,
        v.launched(l, now).scroll_animation.unwrap().start_y == v.launched(l, now).vertical_offset,
        v.launched(l, now).offsets_at(now) == (
            v.launched(l, now).ribbon_offset as int,
            v.launched(l, now).vertical_offset as int,
        ),
{
    let w = v.launched(l, now);
    let a = w.scroll_animation.unwrap();
    assert(eased_numerator(0, a.duration as int) == 0);
    lemma_cube_positive(a.duration as int);
    let den = cube(a.duration as int);
    assert(0int / den == 0) by (nonlinear_arith)
        requires
            den > 0,
    ;
    assert forall|from: int, to: int| #[trigger] interpolate(from, to, 0, den) == from by {
        assert((to - from) * 0 == 0) by (nonlinear_arith);
    }
}

/// A valid transition has its tile within bounds at every moment.
pub proof fn lemma_rect_at_bounded(a: AnimationState, now: u64)
    requires
        a.valid(),
    ensures
        a.rect_at(now).bounded(),
{
    if !a.finished(now) {
        crate::animation::lemma_sample_bounded(a, now);
    }
}

} // verus!
