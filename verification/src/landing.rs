//! What a tick does to a single tile and to the scroll, whatever else it finds: a
//! transition that has run its length lands exactly at its target.

use vstd::prelude::*;
use crate::animation::{lemma_interpolate_between, AnimationType, ScrollAnimation};
use crate::consistency::{lemma_clamped_within, lemma_consistent_grounded};
use crate::easing::{cube, eased_numerator, lemma_cube_monotonic, lemma_cube_positive};
use crate::geometry::{max_int, min_int};
use crate::layout::{lemma_positions_limits, manages, same_positions, same_windows, ManagedTile};
use crate::model::TilerState;
use crate::scan::{lemma_filter_map_members, lemma_filter_map_total};
use crate::schedule::{after_tick, committed, moving_placements, resting_placements, restorations,
    Placement, Restoration};
use crate::viewport::ViewportState;

verus! {

impl TilerState {
    /// The tiles as a tick at `now` leaves them, before any recalculation.
    pub open spec fn tiles_after_tick(self, now: u64) -> Seq<ManagedTile> {
        self.tiles.filter_map(
            after_tick(self.scrolled(now).projection(), self.viewport.scroll_animation.is_some(), now),
        )
    }

    /// The targets of the scroll `a` lie within the limits that the tiles put on the
    /// viewport.
    pub open spec fn targets_within(self, a: ScrollAnimation) -> bool {
        a.target_x <= self.limits().max_x && a.target_y <= self.limits().max_y
    }

    /// The start and the targets of the scroll `a` lie within the limits that the tiles
    /// put on the viewport.
    pub open spec fn path_within(self, a: ScrollAnimation) -> bool {
        &&& self.targets_within(a)
        &&& a.start_x <= self.limits().max_x
        &&& a.start_y <= self.limits().max_y
    }

    /// The transition of tile `j`, which is no exit, has run its length at `now`.
    pub open spec fn lands_at(self, j: int, now: u64) -> bool {
        match self.tiles[j].animation {
            Some(a) => a.finished(now) && a.animation_type != AnimationType::Exit,
            None => false,
        }
    }

    /// `after` holds a tile for the window of tile `j`, in the same row and of the same
    /// size; at rest if `at_rest`, and at the same x if `in_place`.
    pub open spec fn keeps_tile(self, j: int, after: Seq<ManagedTile>, at_rest: bool, in_place: bool) -> bool {
        exists|k: int|
            0 <= k < after.len() && (#[trigger] after[k]).id == self.tiles[j].id
                && after[k].position.row == self.tiles[j].position.row && after[k].position.size
                == self.tiles[j].position.size && (at_rest ==> after[k].animation.is_none()) && (
            in_place ==> after[k].position.x == self.tiles[j].position.x)
    }

    /// What a tick at `now` owes tile `j`, where it leaves the tiles `after` and
    /// returns `batch` and `restorations`. A tile whose exit has run its length is
    /// gone, and its window is handed back with what was saved of it, to be put at
    /// exactly the exit's target. Every other tile is kept, in its row and with its
    /// size, and at its x unless the tick recalculates. A tile whose transition has run
    /// its length is at rest, and the batch has exactly the target for its window, or
    /// nothing where the target is not fit to be committed.
    pub open spec fn tick_settles_tile(
        self,
        j: int,
        now: u64,
        after: Seq<ManagedTile>,
        batch: Seq<Placement>,
        restorations: Seq<Restoration>,
    ) -> bool {
        let tile = self.tiles[j];
        if self.leaves_at(j, now) {
            &&& !manages(after, tile.id)
            &&& restorations.contains(
                Restoration { id: tile.id, saved: tile.saved, rect: tile.animation.unwrap().target_rect },
            )
        } else {
            &&& self.keeps_tile(j, after, self.lands_at(j, now), !self.tick_recalculates(now))
            &&& self.lands_at(j, now) ==> {
                let target = tile.animation.unwrap().target_rect;
                &&& target.near_display(self.display) == batch.contains(
                    Placement { id: tile.id, rect: target },
                )
                &&& forall|p: Placement| #[trigger] batch.contains(p) && p.id == tile.id ==> p.rect == target
            }
        }
    }

    /// What a tick at `now` owes a scroll under way, where it leaves the state `after`.
    /// A scroll that has run its length, toward targets within the limits, leaves the
    /// viewport at rest at its targets: always where the tick does not recalculate,
    /// and else where tiles are left and the targets are within the limits that stand
    /// after the tick. A scroll still under way, between places within the limits,
    /// has both offsets between its start and its targets unless the tick takes a tile
    /// away.
    pub open spec fn tick_settles_scroll(self, now: u64, after: TilerState) -> bool {
        match self.viewport.scroll_animation {
            Some(a) => {
                &&& a.finished(now) && self.targets_within(a) && (!self.tick_recalculates(now) || (
                after.tiles.len() > 0 && self.advanced(now).targets_within(a) && after.targets_within(a)))
                    ==> after.viewport.rests_at(a)
                &&& !a.finished(now) && self.path_within(a) && !self.tick_removes(now)
                    ==> after.viewport.between(a)
            },
            None => true,
        }
    }

    /// The exit of tile `j` has run its length at `now`.
    pub open spec fn leaves_at(self, j: int, now: u64) -> bool {
        match self.tiles[j].animation {
            Some(a) => a.finished(now) && a.animation_type == AnimationType::Exit,
            None => false,
        }
    }
}

impl ViewportState {
    /// Both offsets and both targets are at the targets of the scroll `a`, and no
    /// scroll is under way.
    pub open spec fn rests_at(self, a: ScrollAnimation) -> bool {
        &&& self.ribbon_offset == a.target_x
        &&& self.ribbon_offset_target == a.target_x
        &&& self.vertical_offset == a.target_y
        &&& self.vertical_offset_target == a.target_y
        &&& self.scroll_animation.is_none()
    }

    /// Both offsets lie between the start and the targets of the scroll `a`.
    pub open spec fn between(self, a: ScrollAnimation) -> bool {
        &&& min_int(a.start_x as int, a.target_x as int) <= self.ribbon_offset <= max_int(
            a.start_x as int,
            a.target_x as int,
        )
        &&& min_int(a.start_y as int, a.target_y as int) <= self.vertical_offset <= max_int(
            a.start_y as int,
            a.target_y as int,
        )
    }
}

/// A tick leaves the ids, rows and sizes of the tiles it keeps as they are, also where
/// it recalculates.
proof fn lemma_ticked_tiles(s: TilerState, now: u64)
    requires
        s.wf(),
    ensures
        s.advanced(now).tiles == s.tiles_after_tick(now),
        s.ticked(now).tiles.len() == s.tiles_after_tick(now).len(),
        forall|k: int|
            0 <= k < s.tiles_after_tick(now).len() ==> (#[trigger] s.ticked(now).tiles[k]).id
                == s.tiles_after_tick(now)[k].id && s.ticked(now).tiles[k].animation
                == s.tiles_after_tick(now)[k].animation && s.ticked(now).tiles[k].position.row
                == s.tiles_after_tick(now)[k].position.row && s.ticked(now).tiles[k].position.size
                == s.tiles_after_tick(now)[k].position.size,
        !s.tick_recalculates(now) ==> s.ticked(now).tiles == s.tiles_after_tick(now),
{
    crate::upkeep::lemma_ticked_consistent(s, now);
    let kept = s.tiles_after_tick(now);
    let rested = s.rested(now);
    assert(rested.tiles == kept);
    if s.tick_recalculates(now) && kept.len() > 0 {
        assert forall|k: int| 0 <= k < kept.len() implies (#[trigger] s.ticked(now).tiles[k]).id
            == kept[k].id && s.ticked(now).tiles[k].animation == kept[k].animation && s.ticked(
            now,
        ).tiles[k].position.row == kept[k].position.row && s.ticked(now).tiles[k].position.size
            == kept[k].position.size by {
            crate::packing::lemma_packed_fits(kept, s.display, k);
        }
    }
}

/// A transition of a tile that has run its length, and is no exit, leaves the tile at
/// rest: the tile is still there, at its place, with no transition. The rectangle that
/// the tick issues for its window is exactly the target, and it issues one exactly if
/// the target is fit to be committed.
pub proof fn lemma_tick_lands_tile(s: TilerState, now: u64, j: int)
    requires
        s.wf(),
        0 <= j < s.tiles.len(),
        s.tiles[j].animation.is_some(),
        s.tiles[j].animation.unwrap().finished(now),
        s.tiles[j].animation.unwrap().animation_type != AnimationType::Exit,
    ensures
        ({
            let tile = s.tiles[j];
            let target = tile.animation.unwrap().target_rect;
            let landed = ManagedTile {
                animation: None,
                shown: committed(tile.shown, target, s.display),
                ..tile
            };
            &&& s.tiles_after_tick(now).contains(landed)
            &&& !s.tick_recalculates(now) ==> s.ticked(now).tiles.contains(landed)
            &&& exists|k: int|
                0 <= k < s.ticked(now).tiles.len() && (#[trigger] s.ticked(now).tiles[k]).id
                    == tile.id && s.ticked(now).tiles[k].animation.is_none() && s.ticked(
                    now,
                ).tiles[k].position.row == tile.position.row && s.ticked(now).tiles[k].position.size
                    == tile.position.size
            &&& target.near_display(s.display) == s.tick_batch(now).contains(
                Placement { id: tile.id, rect: target },
            )
            &&& forall|p: Placement|
                #[trigger] s.tick_batch(now).contains(p) && p.id == tile.id ==> p.rect == target
        }),
{
    let tile = s.tiles[j];
    let target = tile.animation.unwrap().target_rect;
    let landed = ManagedTile { animation: None, shown: committed(tile.shown, target, s.display), ..tile };
    let projection = s.scrolled(now).projection();
    let scrolling = s.viewport.scroll_animation.is_some();
    let step = after_tick(projection, scrolling, now);
    let at_rest = resting_placements(projection, scrolling);
    let moving = moving_placements(s.display, now);
    lemma_ticked_tiles(s, now);
    lemma_filter_map_members(s.tiles, step);
    lemma_filter_map_members(s.tiles, at_rest);
    lemma_filter_map_members(s.tiles, moving);
    assert(step(s.tiles[j]) == Some(landed));
    let kept = s.tiles_after_tick(now);
    assert(kept.contains(landed));
    let k = choose|k: int| 0 <= k < kept.len() && kept[k] == landed;
    assert(s.ticked(now).tiles[k].id == tile.id);
    let resting = s.tiles.filter_map(at_rest);
    let moved = s.tiles.filter_map(moving);
    let batch = s.tick_batch(now);
    assert(batch == resting + moved);
    assert forall|p: Placement| #[trigger] batch.contains(p) && p.id == tile.id implies p.rect
        == target && target.near_display(s.display) by {
        let b = choose|b: int| 0 <= b < batch.len() && batch[b] == p;
        if b < resting.len() {
            assert(resting[b] == p);
            let i = choose|i: int| 0 <= i < s.tiles.len() && at_rest(s.tiles[i]) == Some(resting[b]);
            assert(s.tiles[i].id == tile.id);
            assert(i == j);
        } else {
            assert(moved[b - resting.len()] == p);
            let i = choose|i: int|
                0 <= i < s.tiles.len() && moving(s.tiles[i]) == Some(moved[b - resting.len()]);
            assert(s.tiles[i].id == tile.id);
            assert(i == j);
        }
    }
    if target.near_display(s.display) {
        let p = Placement { id: tile.id, rect: target };
        assert(moving(s.tiles[j]) == Some(p));
        assert(moved.contains(p));
        let m = choose|m: int| 0 <= m < moved.len() && moved[m] == p;
        assert(batch[resting.len() + m] == p);
    }
}

/// An exit that has run its length takes its tile away: the window is no tile after
/// the tick, and the tick hands it back with what was saved of it, to be put at
/// exactly the exit's target.
pub proof fn lemma_tick_takes_tile_away(s: TilerState, now: u64, j: int)
    requires
        s.wf(),
        0 <= j < s.tiles.len(),
        s.leaves_at(j, now),
    ensures
        !manages(s.tiles_after_tick(now), s.tiles[j].id),
        !manages(s.ticked(now).tiles, s.tiles[j].id),
        s.tick_removes(now),
        s.tick_restorations(now).contains(
            Restoration {
                id: s.tiles[j].id,
                saved: s.tiles[j].saved,
                rect: s.tiles[j].animation.unwrap().target_rect,
            },
        ),
{
    let tile = s.tiles[j];
    let projection = s.scrolled(now).projection();
    let scrolling = s.viewport.scroll_animation.is_some();
    let step = after_tick(projection, scrolling, now);
    let leaving = restorations(now);
    lemma_ticked_tiles(s, now);
    lemma_filter_map_members(s.tiles, step);
    lemma_filter_map_members(s.tiles, leaving);
    lemma_filter_map_total(s.tiles, step);
    assert(step(s.tiles[j]).is_none());
    let kept = s.tiles_after_tick(now);
    if manages(kept, tile.id) {
        let k = choose|k: int| 0 <= k < kept.len() && (#[trigger] kept[k]).id == tile.id;
        let i = choose|i: int| 0 <= i < s.tiles.len() && step(s.tiles[i]) == Some(kept[k]);
        assert(s.tiles[i].id == tile.id);
        assert(i == j);
    }
    if manages(s.ticked(now).tiles, tile.id) {
        let k = choose|k: int|
            0 <= k < s.ticked(now).tiles.len() && (#[trigger] s.ticked(now).tiles[k]).id == tile.id;
        assert(kept[k].id == tile.id);
    }
    assert(leaving(s.tiles[j]).is_some());
}

/// A tick takes away no tile but those whose exit has run its length: every other tile
/// is still a tile after the tick, in its row, with its size, and, unless the tick
/// recalculates, at its x.
pub proof fn lemma_tick_keeps_other_tiles(s: TilerState, now: u64, j: int)
    requires
        s.wf(),
        0 <= j < s.tiles.len(),
        !s.leaves_at(j, now),
    ensures
        exists|k: int|
            0 <= k < s.tiles_after_tick(now).len() && (#[trigger] s.tiles_after_tick(now)[k]).id
                == s.tiles[j].id && s.tiles_after_tick(now)[k].position == s.tiles[j].position,
        exists|k: int|
            0 <= k < s.ticked(now).tiles.len() && (#[trigger] s.ticked(now).tiles[k]).id
                == s.tiles[j].id && s.ticked(now).tiles[k].position.row == s.tiles[j].position.row
                && s.ticked(now).tiles[k].position.size == s.tiles[j].position.size,
{
    let projection = s.scrolled(now).projection();
    let scrolling = s.viewport.scroll_animation.is_some();
    let step = after_tick(projection, scrolling, now);
    lemma_ticked_tiles(s, now);
    lemma_filter_map_members(s.tiles, step);
    assert(step(s.tiles[j]).is_some());
    let kept = s.tiles_after_tick(now);
    let k = choose|k: int| 0 <= k < kept.len() && kept[k] == step(s.tiles[j]).unwrap();
    assert(kept[k].id == s.tiles[j].id && kept[k].position == s.tiles[j].position);
    assert(s.ticked(now).tiles[k].id == s.tiles[j].id);
}

/// A tick that takes no tile away leaves every tile at its place, and the limits of
/// the viewport as they are.
pub proof fn lemma_tick_keeps_places(s: TilerState, now: u64)
    requires
        s.wf(),
        !s.tick_removes(now),
    ensures
        same_positions(s.tiles, s.tiles_after_tick(now)),
        same_windows(s.tiles, s.tiles_after_tick(now)),
        s.advanced(now).limits() == s.limits(),
        s.advanced(now).viewport == s.scrolled(now).viewport,
        s.scrolled(now).viewport.within(s.limits()),
        !s.tick_recalculates(now) ==> s.ticked(now).viewport == s.scrolled(now).viewport,
{
    let projection = s.scrolled(now).projection();
    let scrolling = s.viewport.scroll_animation.is_some();
    let step = after_tick(projection, scrolling, now);
    lemma_consistent_grounded(s);
    lemma_filter_map_total(s.tiles, step);
    let kept = s.tiles_after_tick(now);
    assert(s.advanced(now).tiles == kept);
    assert forall|k: int| 0 <= k < s.tiles.len() implies (#[trigger] s.tiles[k]).position
        == kept[k].position && s.tiles[k].id == kept[k].id by {
        assert(step(s.tiles[k]) == Some(kept[k]));
    }
    lemma_positions_limits(s.tiles, kept, s.display);
    let unclamped = match s.viewport.scroll_animation {
        Some(a) => if a.finished(now) {
            ViewportState {
                ribbon_offset: a.target_x,
                ribbon_offset_target: a.target_x,
                vertical_offset: a.target_y,
                vertical_offset_target: a.target_y,
                current_row: s.viewport.current_row,
                scroll_animation: None,
            }
        } else {
            ViewportState {
                ribbon_offset: a.offsets_at(now).0 as i32,
                vertical_offset: a.offsets_at(now).1 as i32,
                ..s.viewport
            }
        },
        None => s.viewport,
    };
    lemma_clamped_within(unclamped, s.limits(), s.display);
    lemma_clamped_within(s.scrolled(now).viewport, s.limits(), s.display);
}

/// A scroll that has run its length, toward targets within the limits, leaves both
/// offsets and both targets exactly at its targets, and ends. A tick leaves the
/// viewport so unless it recalculates; and where it recalculates too, as long as tiles
/// are left and the targets are within the limits that the tiles put on the viewport
/// after the tick.
pub proof fn lemma_tick_lands_scroll(s: TilerState, now: u64)
    requires
        s.wf(),
        s.viewport.scroll_animation.is_some(),
        s.viewport.scroll_animation.unwrap().finished(now),
        s.targets_within(s.viewport.scroll_animation.unwrap()),
    ensures
        s.scrolled(now).viewport.rests_at(s.viewport.scroll_animation.unwrap()),
        !s.tick_recalculates(now) ==> s.ticked(now).viewport.rests_at(
            s.viewport.scroll_animation.unwrap(),
        ),
        s.advanced(now).targets_within(s.viewport.scroll_animation.unwrap()) && s.ticked(now).targets_within(
            s.viewport.scroll_animation.unwrap(),
        ) && s.ticked(now).tiles.len() > 0 ==> s.ticked(now).viewport.rests_at(
            s.viewport.scroll_animation.unwrap(),
        ),
{
    lemma_consistent_grounded(s);
    let a = s.viewport.scroll_animation.unwrap();
    if !s.tick_recalculates(now) {
        lemma_tick_keeps_places(s, now);
    }
    let rested = s.rested(now);
    let after = s.ticked(now);
    if s.advanced(now).targets_within(a) && after.targets_within(a) && after.tiles.len() > 0 && s.tick_recalculates(
        now,
    ) {
        crate::upkeep::lemma_ticked_consistent(s, now);
        lemma_ticked_tiles(s, now);
        assert(rested.viewport.rests_at(a));
        let tiles = crate::packing::packed(rested.tiles, s.display);
        assert forall|k: int| 0 <= k < tiles.len() implies (#[trigger] after.tiles[k]).position
            == tiles[k].position by {
        }
        lemma_positions_limits(after.tiles, tiles, s.display);
        lemma_consistent_grounded(after);
    }
}

/// While a scroll between two places within the limits is under way, a tick puts both
/// offsets between where the scroll started and where it is going, and recalculates
/// only if it takes a tile away.
pub proof fn lemma_tick_keeps_scroll_between(s: TilerState, now: u64)
    requires
        s.wf(),
        s.viewport.scroll_animation.is_some(),
        s.viewport.scroll_animation.unwrap().start_x <= s.limits().max_x,
        s.viewport.scroll_animation.unwrap().target_x <= s.limits().max_x,
        s.viewport.scroll_animation.unwrap().start_y <= s.limits().max_y,
        s.viewport.scroll_animation.unwrap().target_y <= s.limits().max_y,
    ensures
        ({
            let a = s.viewport.scroll_animation.unwrap();
            let v = s.scrolled(now).viewport;
            &&& min_int(a.start_x as int, a.target_x as int) <= v.ribbon_offset <= max_int(
                a.start_x as int,
                a.target_x as int,
            )
            &&& min_int(a.start_y as int, a.target_y as int) <= v.vertical_offset <= max_int(
                a.start_y as int,
                a.target_y as int,
            )
            &&& !s.tick_recalculates(now) ==> s.ticked(now).viewport == v
            &&& !a.finished(now) ==> s.tick_recalculates(now) == s.tick_removes(now)
        }),
{
    lemma_consistent_grounded(s);
    let a = s.viewport.scroll_animation.unwrap();
    if !a.finished(now) {
        assert(s.advanced(now).viewport.scroll_animation.is_some());
        let elapsed = crate::animation::elapsed_between(a.start_time, now);
        let num = eased_numerator(elapsed, a.duration as int);
        let den = cube(a.duration as int);
        lemma_cube_monotonic(a.duration - elapsed, a.duration as int);
        lemma_cube_positive(a.duration as int);
        lemma_interpolate_between(a.start_x as int, a.target_x as int, num, den);
        lemma_interpolate_between(a.start_y as int, a.target_y as int, num, den);
    }
    if !s.tick_recalculates(now) {
        lemma_tick_keeps_places(s, now);
    }
}

/// A tick gives every tile and the scroll what it owes them.
pub proof fn lemma_tick_settles(s: TilerState, now: u64)
    requires
        s.wf(),
    ensures
        forall|j: int|
            0 <= j < s.tiles.len() ==> #[trigger] s.tick_settles_tile(
                j,
                now,
                s.ticked(now).tiles,
                s.tick_batch(now),
                s.tick_restorations(now),
            ),
        s.tick_settles_scroll(now, s.ticked(now)),
{
    let after = s.ticked(now).tiles;
    lemma_ticked_tiles(s, now);
    assert forall|j: int| 0 <= j < s.tiles.len() implies #[trigger] s.tick_settles_tile(
        j,
        now,
        after,
        s.tick_batch(now),
        s.tick_restorations(now),
    ) by {
        if s.leaves_at(j, now) {
            lemma_tick_takes_tile_away(s, now, j);
        } else {
            let step = after_tick(
                s.scrolled(now).projection(),
                s.viewport.scroll_animation.is_some(),
                now,
            );
            lemma_filter_map_members(s.tiles, step);
            let kept = s.tiles_after_tick(now);
            let k = choose|k: int| 0 <= k < kept.len() && kept[k] == step(s.tiles[j]).unwrap();
            assert(after[k].id == s.tiles[j].id);
            assert(kept[k].position == s.tiles[j].position);
            if s.lands_at(j, now) {
                lemma_tick_lands_tile(s, now, j);
                assert(kept[k].animation.is_none());
            }
            assert(s.keeps_tile(j, after, s.lands_at(j, now), !s.tick_recalculates(now)));
        }
    }
    if s.viewport.scroll_animation.is_some() {
        let a = s.viewport.scroll_animation.unwrap();
        lemma_consistent_grounded(s);
        if a.finished(now) && s.targets_within(a) {
            lemma_tick_lands_scroll(s, now);
        }
        if !a.finished(now) && s.path_within(a) {
            lemma_tick_keeps_scroll_between(s, now);
        }
    }
}

} // verus!
