//! Every operation takes a consistent state to a consistent state. With that, what
//! holds of every consistent state holds after any sequence of operations: above all,
//! that the viewport is within the limits that the tiles set.

use vstd::prelude::*;
use crate::animation::{AnimationType, EXIT_DURATION_MS};
use crate::arrange::without;
use crate::geometry::{lemma_row_origin_bounds, restoration_rect, Direction, Display, Projection, Rect,
    RibbonPosition};
use crate::laws::lemma_rect_at_bounded;
use crate::layout::{distinct_ids, lemma_limits, lemma_positions_limits, lemma_tile_index, manages,
    same_positions, tile_index, tiles_sound, tiles_valid, ManagedTile};
use crate::model::TilerState;
use crate::packing::{lemma_pack_valid, packed};
use crate::schedule::{after_tick, lemma_same_places};
use crate::viewport::{Limits, ViewportState};

verus! {

/// The geometry mapper puts every tile of the ribbon within bounds.
pub proof fn lemma_screen_rect_bounded(p: Projection, pos: RibbonPosition)
    requires
        p.valid(),
        pos.valid(),
    ensures
        p.screen_rect(pos).bounded(),
{
    lemma_row_origin_bounds(pos.row as int, p.display.height as int);
}

/// A window is always put back within bounds.
pub proof fn lemma_restoration_bounded(saved: Rect, display: Display)
    ensures
        restoration_rect(saved, display).bounded(),
{
}

/// What is left of valid tiles when some are dropped is valid, and every tile that is
/// left was there before.
pub proof fn lemma_filter_valid(tiles: Seq<ManagedTile>, keep: spec_fn(ManagedTile) -> bool, display: Display)
    requires
        tiles_valid(tiles, display),
    ensures
        tiles_valid(tiles.filter(keep), display),
        forall|k: int|
            0 <= k < tiles.filter(keep).len() ==> exists|j: int|
                0 <= j < tiles.len() && tiles[j] == #[trigger] tiles.filter(keep)[k],
    decreases tiles.len(),
{
    reveal(Seq::filter);
    if tiles.len() > 0 {
        let rest = tiles.drop_last();
        let last = tiles.last();
        assert(tiles_valid(rest, display)) by {
            assert forall|i: int| 0 <= i < rest.len() implies (#[trigger] rest[i]).valid(display) by {
                assert(tiles[i].valid(display));
            }
        }
        lemma_filter_valid(rest, keep, display);
        let kept = rest.filter(keep);
        let all = tiles.filter(keep);
        assert forall|k: int| 0 <= k < all.len() implies exists|j: int|
            0 <= j < tiles.len() && tiles[j] == #[trigger] all[k] by {
            if k < kept.len() {
                let j = choose|j: int| 0 <= j < rest.len() && rest[j] == kept[k];
                assert(tiles[j] == all[k]);
            } else {
                assert(tiles[tiles.len() - 1] == all[k]);
            }
        }
        assert forall|k: int| 0 <= k < all.len() implies (#[trigger] all[k]).valid(display) by {
            let j = choose|j: int| 0 <= j < tiles.len() && tiles[j] == all[k];
            assert(tiles[j].valid(display));
        }
        assert(distinct_ids(all)) by {
            assert forall|a: int, b: int|
                0 <= a < all.len() && 0 <= b < all.len() && a != b implies all[a].id
                != all[b].id by {
                if a < kept.len() && b < kept.len() {
                    assert(kept[a].id != kept[b].id);
                } else if a < kept.len() {
                    let j = choose|j: int| 0 <= j < rest.len() && rest[j] == kept[a];
                    assert(tiles[j].id != tiles[tiles.len() - 1].id);
                } else if b < kept.len() {
                    let j = choose|j: int| 0 <= j < rest.len() && rest[j] == kept[b];
                    assert(tiles[j].id != tiles[tiles.len() - 1].id);
                }
            }
        }
        tiles.lemma_filter_len(keep);
    }
}

/// What a tick leaves of valid tiles is valid.
pub proof fn lemma_tick_valid(tiles: Seq<ManagedTile>, projection: Projection, scrolling: bool, now: u64)
    requires
        projection.valid(),
        tiles_valid(tiles, projection.display),
    ensures
        tiles_valid(tiles.filter_map(after_tick(projection, scrolling, now)), projection.display),
        forall|k: int|
            0 <= k < tiles.filter_map(after_tick(projection, scrolling, now)).len() ==> exists|j: int|
                0 <= j < tiles.len() && tiles[j].id == (#[trigger] tiles.filter_map(
                    after_tick(projection, scrolling, now),
                )[k]).id,
        tiles.filter_map(after_tick(projection, scrolling, now)).len() <= tiles.len(),
    decreases tiles.len(),
{
    let step = after_tick(projection, scrolling, now);
    let display = projection.display;
    if tiles.len() > 0 {
        let rest = tiles.drop_last();
        let last = tiles.last();
        assert(tiles_valid(rest, display)) by {
            assert forall|i: int| 0 <= i < rest.len() implies (#[trigger] rest[i]).valid(display) by {
                assert(tiles[i].valid(display));
            }
        }
        lemma_tick_valid(rest, projection, scrolling, now);
        let kept = rest.filter_map(step);
        let all = tiles.filter_map(step);
        assert(last.valid(display));
        match last.animation {
            Some(a) => {
                lemma_rect_at_bounded(a, now);
            },
            None => {
                lemma_screen_rect_bounded(
                    projection,
                    last.position,
                );
            },
        }
        assert(all == match step(last) {
            Some(t) => kept + seq![t],
            None => kept,
        });
        assert forall|k: int| 0 <= k < all.len() implies exists|j: int|
            0 <= j < tiles.len() && tiles[j].id == (#[trigger] all[k]).id by {
            if k < kept.len() {
                let j = choose|j: int| 0 <= j < rest.len() && rest[j].id == kept[k].id;
                assert(tiles[j].id == all[k].id);
            } else {
                assert(tiles[tiles.len() - 1].id == all[k].id);
            }
        }
        assert forall|k: int| 0 <= k < all.len() implies (#[trigger] all[k]).valid(display) by {
            if k < kept.len() {
                assert(kept[k].valid(display));
            }
        }
        assert(distinct_ids(all)) by {
            assert forall|a: int, b: int|
                0 <= a < all.len() && 0 <= b < all.len() && a != b implies all[a].id
                != all[b].id by {
                if a < kept.len() && b < kept.len() {
                    assert(kept[a].id != kept[b].id);
                } else if a < kept.len() {
                    let j = choose|j: int| 0 <= j < rest.len() && rest[j].id == kept[a].id;
                    assert(tiles[j].id != tiles[tiles.len() - 1].id);
                } else if b < kept.len() {
                    let j = choose|j: int| 0 <= j < rest.len() && rest[j].id == kept[b].id;
                    assert(tiles[j].id != tiles[tiles.len() - 1].id);
                }
            }
        }
    }
}

/// A viewport brought within valid limits is within them.
pub proof fn lemma_clamped_within(v: ViewportState, l: Limits, display: Display)
    requires
        l.valid(display),
        match v.scroll_animation {
            Some(a) => a.valid(),
            None => true,
        },
    ensures
        v.clamped(l).within(l),
        v.within(l) ==> v.clamped(l) == v,
{
}

/// A scroll that begins within valid limits leaves the viewport within them.
pub proof fn lemma_launched_within(v: ViewportState, l: Limits, display: Display, now: u64)
    requires
        l.valid(display),
    ensures
        v.launched(l, now).within(l),
{
}

/// Bringing the viewport within its limits makes a consistent state of any state whose
/// tiles are in order, and changes nothing of a consistent one.
pub proof fn lemma_settled_consistent(s: TilerState)
    requires
        s.grounded(),
    ensures
        s.settled().wf(),
        s.wf() ==> s.settled() == s,
{
    lemma_limits(s.tiles, s.display);
    lemma_clamped_within(s.viewport, s.limits(), s.display);
}

/// A consistent state has its tiles in order, and its projection is valid.
pub proof fn lemma_consistent_grounded(s: TilerState)
    requires
        s.wf(),
    ensures
        s.grounded(),
        s.projection().valid(),
        s.limits().valid(s.display),
        s.viewport.valid(),
{
    lemma_limits(s.tiles, s.display);
}

/// Tiles at the same places, sound, with the same ids, leave a consistent state
/// consistent.
pub proof fn lemma_same_places_consistent(s: TilerState, tiles: Seq<ManagedTile>)
    requires
        s.wf(),
        tiles.len() == s.tiles.len(),
        forall|k: int|
            0 <= k < tiles.len() ==> (#[trigger] tiles[k]).id == s.tiles[k].id && tiles[k].position
                == s.tiles[k].position && tiles[k].shown.bounded() && (match tiles[k].animation {
                Some(a) => a.valid(),
                None => true,
            }),
    ensures
        (TilerState { tiles, ..s }).wf(),
        (TilerState { tiles, ..s }).limits() == s.limits(),
{
    lemma_same_places(s.tiles, tiles, s.display);
    assert(same_positions(s.tiles, tiles));
    lemma_positions_limits(s.tiles, tiles, s.display);
}

/// Cleanup keeps the state consistent.
pub proof fn lemma_cleaned_consistent(s: TilerState, gone: Seq<i64>)
    requires
        s.wf(),
    ensures
        s.cleaned(gone).wf(),
{
    lemma_filter_valid(s.tiles, |t: ManagedTile| !gone.contains(t.id), s.display);
    let tiles = without(s.tiles, gone);
    let dropped = TilerState {
        tiles,
        needs_ribbon_recalc: s.needs_ribbon_recalc || tiles.len() != s.tiles.len(),
        ..s
    };
    lemma_settled_consistent(dropped);
}

/// Every tile sent to its place by a transition of its own, or put there at once,
/// keeps the state consistent.
pub proof fn lemma_placing_consistent(s: TilerState, now: u64)
    requires
        s.wf(),
    ensures
        s.all_animated(now).wf(),
        s.all_positioned().wf(),
        s.all_animated(now).limits() == s.limits(),
        s.all_positioned().limits() == s.limits(),
{
    lemma_consistent_grounded(s);
    let p = s.projection();
    let animated = s.all_animated(now).tiles;
    let positioned = s.all_positioned().tiles;
    assert forall|k: int| 0 <= k < s.tiles.len() implies (#[trigger] animated[k]).id == s.tiles[k].id
        && animated[k].position == s.tiles[k].position && animated[k].shown.bounded() && (
    match animated[k].animation {
        Some(a) => a.valid(),
        None => true,
    }) by {
        assert(s.tiles[k].valid(s.display));
        lemma_screen_rect_bounded(p, s.tiles[k].position);
        if s.tiles[k].animation.is_some() {
            lemma_rect_at_bounded(s.tiles[k].animation.unwrap(), now);
        }
    }
    assert forall|k: int| 0 <= k < s.tiles.len() implies (#[trigger] positioned[k]).id
        == s.tiles[k].id && positioned[k].position == s.tiles[k].position
        && positioned[k].shown.bounded() && (match positioned[k].animation {
        Some(a) => a.valid(),
        None => true,
    }) by {
        assert(s.tiles[k].valid(s.display));
        lemma_screen_rect_bounded(p, s.tiles[k].position);
    }
    lemma_same_places_consistent(s, animated);
    lemma_same_places_consistent(s, positioned);
    lemma_same_places_consistent(
        TilerState { animation_running: s.animation_running || s.tiles.len() > 0, ..s },
        animated,
    );
}

/// A recalculation keeps the state consistent.
pub proof fn lemma_recalculated_consistent(s: TilerState, now: u64)
    requires
        s.wf(),
    ensures
        s.recalculated(now).wf(),
{
    lemma_consistent_grounded(s);
    if s.tiles.len() == 0 {
        let reset = TilerState {
            viewport: ViewportState {
                ribbon_offset: 0,
                ribbon_offset_target: 0,
                vertical_offset: 0,
                vertical_offset_target: 0,
                ..s.viewport
            },
            ..s
        };
        lemma_settled_consistent(reset);
    } else {
        assert(tiles_sound(s.tiles)) by {
            assert forall|i: int| 0 <= i < s.tiles.len() implies (#[trigger] s.tiles[i]).sound() by {
                assert(s.tiles[i].valid(s.display));
            }
        }
        lemma_pack_valid(s.tiles, s.display);
        let tiles = packed(s.tiles, s.display);
        let settled = crate::schedule::row_settled(tiles, s.projection(), s.viewport.current_row);
        assert forall|k: int| 0 <= k < tiles.len() implies (#[trigger] settled[k]).id == tiles[k].id
            && settled[k].position == tiles[k].position && settled[k].shown.bounded() && (
        match settled[k].animation {
            Some(a) => a.valid(),
            None => true,
        }) by {
            assert(tiles[k].valid(s.display));
            lemma_screen_rect_bounded(s.projection(), tiles[k].position);
        }
        lemma_same_places(tiles, settled, s.display);
        let limit = crate::layout::max_offset(tiles, s.display);
        lemma_limits(tiles, s.display);
        let repacked = TilerState {
            tiles: settled,
            viewport: if s.viewport.ribbon_offset > limit {
                ViewportState {
                    ribbon_offset: limit as i32,
                    ribbon_offset_target: limit as i32,
                    scroll_animation: None,
                    ..s.viewport
                }
            } else {
                s.viewport
            },
            needs_ribbon_recalc: false,
            last_ribbon_recalc: now,
            ..s
        };
        lemma_settled_consistent(repacked);
    }
}

/// Pans and scrolls keep the state consistent.
pub proof fn lemma_viewing_consistent(s: TilerState, direction: Direction, id: i64, now: u64)
    requires
        s.wf(),
    ensures
        s.panned(direction, now).wf(),
        s.row_panned(direction, now).wf(),
        s.scrolled_to(id, now).wf(),
        s.fps_cycled().wf(),
{
    lemma_consistent_grounded(s);
    let l = s.limits();
    lemma_launched_within(
        ViewportState {
            ribbon_offset_target: crate::geometry::clamp_int(
                s.viewport.ribbon_offset_target - s.display.width / 2,
                0,
                l.max_x as int,
            ) as i32,
            ..s.viewport
        },
        l,
        s.display,
        now,
    );
    lemma_launched_within(
        ViewportState {
            ribbon_offset_target: crate::geometry::clamp_int(
                s.viewport.ribbon_offset_target + s.display.width / 2,
                0,
                l.max_x as int,
            ) as i32,
            ..s.viewport
        },
        l,
        s.display,
        now,
    );
    assert(s.viewport.panned(direction, s.display.width / 2, l, now).within(l));
    assert(s.viewport.row_panned(direction, s.display.height as int, l, now).within(l));
    if manages(s.tiles, id) {
        let tile = s.tiles[tile_index(s.tiles, id)];
        assert(s.viewport.aimed(
            tile.position.row as int,
            tile.position.x + s.display.tile_width(tile.position.size) / 2,
            s.display,
            l,
            now,
        ).within(l));
    }
}

/// Changes of opacity and margins keep the state consistent.
pub proof fn lemma_look_consistent(s: TilerState, opacity: i8, margin: i32)
    requires
        s.wf(),
    ensures
        s.transparency_adjusted(opacity).wf(),
        s.margins_adjusted(margin).wf(),
{
    let clear = TilerState {
        transparency: crate::geometry::clamp_int(
            s.transparency + opacity,
            crate::model::MIN_ALPHA as int,
            255,
        ) as u8,
        ..s
    };
    lemma_placing_consistent(clear, 0);
    let wide = TilerState { margins: s.margins.adjusted(margin as int), ..s };
    lemma_placing_consistent(wide, 0);
}

/// The start of a removal keeps the state consistent.
pub proof fn lemma_removed_consistent(s: TilerState, id: i64, now: u64)
    requires
        s.wf(),
    ensures
        s.removed(id, now).wf(),
{
    if manages(s.tiles, id) {
        lemma_tile_index(s.tiles, id);
        let i = tile_index(s.tiles, id);
        let tile = s.tiles[i];
        assert(tile.valid(s.display));
        lemma_restoration_bounded(tile.saved.rect, s.display);
        if tile.animation.is_some() {
            lemma_rect_at_bounded(tile.animation.unwrap(), now);
        }
        let leaving = tile.animated_from(
            AnimationType::Exit,
            tile.shown,
            restoration_rect(tile.saved.rect, s.display),
            now,
            EXIT_DURATION_MS,
        );
        let tiles = s.tiles.update(i, leaving);
        assert forall|k: int| 0 <= k < tiles.len() implies (#[trigger] tiles[k]).id == s.tiles[k].id
            && tiles[k].position == s.tiles[k].position && tiles[k].shown.bounded() && (
        match tiles[k].animation {
            Some(a) => a.valid(),
            None => true,
        }) by {
            assert(s.tiles[k].valid(s.display));
        }
        lemma_same_places_consistent(TilerState { animation_running: true, ..s }, tiles);
    }
}

} // verus!
