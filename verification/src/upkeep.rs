//! Every change to the tiles, every tick and every processing cycle takes a consistent
//! state to a consistent state.

use vstd::prelude::*;
use crate::arrange::{has_room, lemma_extent_at_most, lemma_moved_right, nearest_edge, pushed_aside,
    shifted};
use crate::commands::{noted, QueuedCommand, Surroundings, TilerCommand, WindowProbe};
use crate::consistency::{lemma_cleaned_consistent, lemma_consistent_grounded, lemma_look_consistent,
    lemma_placing_consistent, lemma_recalculated_consistent, lemma_removed_consistent,
    lemma_same_places_consistent, lemma_screen_rect_bounded, lemma_settled_consistent,
    lemma_tick_valid, lemma_viewing_consistent};
use crate::disjoint::lemma_nearest_edge;
use crate::dispatch::{Trace, MARGIN_STEP, TRANSPARENCY_STEP};
use crate::geometry::{clamp_int, lemma_row_origin_bounds, max_int, Direction, Display,
    RibbonPosition, TileSize, MAX_EXTENT};
use crate::laws::lemma_rect_at_bounded;
use crate::layout::{extent, lemma_extent, lemma_limits, lemma_same_windows,
    lemma_tile_index, manages, max_offset, max_vertical, tile_index, tiles_sound, tiles_valid,
    top_row, ManagedTile};
use crate::model::{AddOutcome, TilerState};
use crate::packing::{lemma_pack_valid, packed};
use crate::reshape::lemma_replace_tile;
use crate::schedule::after_tick;
use crate::viewport::ViewportState;

verus! {

/// Where a new tile goes, there is room for it.
proof fn lemma_insertion_point_fits(s: TilerState, foreground: i64)
    requires
        s.wf(),
        s.can_add(),
    ensures
        0 <= s.insertion_point(foreground).x <= extent(s.tiles, s.display),
        s.insertion_point(foreground).x == nearest_edge(
            s.tiles,
            s.display,
            s.viewport.current_row,
            s.focus_center(foreground),
            s.viewport.ribbon_offset as int,
        ),
{
    lemma_limits(s.tiles, s.display);
    lemma_extent(s.tiles, s.display);
    let row = s.viewport.current_row;
    let fallback = s.viewport.ribbon_offset as int;
    let x = nearest_edge(s.tiles, s.display, row, s.focus_center(foreground), fallback);
    lemma_nearest_edge(s.tiles, s.display, row, s.focus_center(foreground), fallback);
    if !(x == fallback && (forall|i: int|
        0 <= i < s.tiles.len() ==> (#[trigger] s.tiles[i]).position.row != row)) {
        let t = choose|t: int|
            0 <= t < s.tiles.len() && (#[trigger] s.tiles[t]).position.row == row && (x
                == s.tiles[t].position.x || x == s.tiles[t].end(s.display));
        assert(s.tiles[t].valid(s.display));
        assert(s.tiles[t].end(s.display) <= extent(s.tiles, s.display));
    }
}

/// The tiles with a new tile among them, before anything is set in motion, are valid
/// and reach half a display further at most.
proof fn lemma_insertion_valid(s: TilerState, id: i64, probe: WindowProbe, foreground: i64)
    requires
        s.wf(),
        s.can_add(),
        !manages(s.tiles, id),
    ensures
        ({
            let tile = s.new_tile(id, probe, foreground);
            let half = s.display.tile_width(TileSize::Half);
            let tiles = shifted(s.tiles, tile.position.row, tile.position.x as int, half, id).push(
                tile,
            );
            &&& tiles_valid(tiles, s.display)
            &&& extent(tiles, s.display) <= extent(s.tiles, s.display) + half
            &&& 0 <= tile.position.x <= extent(s.tiles, s.display)
            &&& tiles.len() == s.tiles.len() + 1
        }),
{
    lemma_consistent_grounded(s);
    lemma_extent(s.tiles, s.display);
    lemma_insertion_point_fits(s, foreground);
    let tile = s.new_tile(id, probe, foreground);
    let half = s.display.tile_width(TileSize::Half);
    let x = tile.position.x;
    let row = tile.position.row;
    let moved = shifted(s.tiles, row, x as int, half, id);
    assert forall|k: int| 0 <= k < s.tiles.len() implies #[trigger] moved[k] == s.tiles[k]
        || moved[k] == s.tiles[k].at_x(s.tiles[k].position.x + half) by {
    }
    lemma_moved_right(s.tiles, moved, s.display, half);
    let tiles = moved.push(tile);
    assert(tile.valid(s.display));
    assert forall|k: int| 0 <= k < s.tiles.len() implies (#[trigger] moved[k]).id != id by {
        assert(moved[k].id == s.tiles[k].id);
    }
    assert(tiles_valid(tiles, s.display)) by {
        assert forall|k: int| 0 <= k < tiles.len() implies (#[trigger] tiles[k]).valid(s.display) by {
            if k < moved.len() {
                assert(moved[k].valid(s.display));
            }
        }
        assert forall|a: int, b: int|
            0 <= a < tiles.len() && 0 <= b < tiles.len() && a != b implies tiles[a].id
            != tiles[b].id by {
            if a < moved.len() && b < moved.len() {
                assert(moved[a].id != moved[b].id);
            } else if a < moved.len() {
                assert(moved[a].id != id);
            } else {
                assert(moved[b].id != id);
            }
        }
    }
    lemma_extent(moved, s.display);
    assert forall|k: int| 0 <= k < tiles.len() implies (#[trigger] tiles[k]).end(s.display)
        <= extent(s.tiles, s.display) + half by {
        if k < moved.len() {
            assert(tiles[k] == moved[k]);
            assert(moved[k].end(s.display) <= extent(moved, s.display));
        }
    }
    lemma_extent_at_most(tiles, s.display, extent(s.tiles, s.display) + half);
}

/// Adding a window keeps the state consistent, and lengthens the ribbon by half a
/// display at most.
pub proof fn lemma_added_consistent(
    s: TilerState,
    id: i64,
    probe: Option<WindowProbe>,
    foreground: i64,
    now: u64,
)
    requires
        s.wf(),
        s.add_outcome(id, probe) == AddOutcome::Tiled ==> s.can_add(),
    ensures
        s.added(id, probe, foreground, now).wf(),
        extent(s.added(id, probe, foreground, now).tiles, s.display) <= extent(s.tiles, s.display)
            + s.display.width / 2,
        s.added(id, probe, foreground, now).display == s.display,
        s.add_outcome(id, probe) == AddOutcome::Tiled ==> manages(
            s.added(id, probe, foreground, now).tiles,
            id,
        ),
{
    lemma_consistent_grounded(s);
    lemma_extent(s.tiles, s.display);
    if s.add_outcome(id, probe) == AddOutcome::Tiled {
        lemma_insertion_valid(s, id, probe.unwrap(), foreground);
        let tile = s.new_tile(id, probe.unwrap(), foreground);
        let half = s.display.tile_width(TileSize::Half);
        let x = tile.position.x;
        let tiles = shifted(s.tiles, tile.position.row, x as int, half, id).push(tile);
        lemma_limits(tiles, s.display);
        lemma_row_origin_bounds(s.viewport.current_row as int, s.display.height as int);
        let outside = x < s.viewport.ribbon_offset || x + half > s.viewport.ribbon_offset
            + s.display.width;
        let viewport = if outside {
            let c = clamp_int(x + half / 2 - s.display.width / 2, 0, max_offset(tiles, s.display)) as i32;
            let v = (s.viewport.current_row * s.display.height) as i32;
            ViewportState {
                ribbon_offset: c,
                ribbon_offset_target: c,
                vertical_offset: v,
                vertical_offset_target: v,
                ..s.viewport
            }
        } else {
            s.viewport
        };
        let unsettled = TilerState { tiles, viewport, ..s };
        lemma_settled_consistent(unsettled);
        let placed = unsettled.settled();
        lemma_consistent_grounded(placed);
        let p = placed.projection();
        let after = s.added(id, probe, foreground, now).tiles;
        assert forall|k: int| 0 <= k < tiles.len() implies (#[trigger] after[k]).id == tiles[k].id
            && after[k].position == tiles[k].position && after[k].shown.bounded() && (
        match after[k].animation {
            Some(a) => a.valid(),
            None => true,
        }) by {
            assert(tiles[k].valid(s.display));
            lemma_screen_rect_bounded(p, tiles[k].position);
            if tiles[k].animation.is_some() {
                lemma_rect_at_bounded(tiles[k].animation.unwrap(), now);
            }
        }
        lemma_same_places_consistent(
            TilerState { needs_ribbon_recalc: true, animation_running: true, ..placed },
            after,
        );
        crate::layout::lemma_positions_limits(tiles, after, s.display);
        assert(after[tiles.len() - 1].id == id);
    }
}

/// Tiles that moved right, with one more pushed behind them, reach at least as far and
/// as high as before.
proof fn lemma_insertion_widens(s: TilerState, id: i64, probe: WindowProbe, foreground: i64)
    requires
        s.wf(),
        s.can_add(),
        !manages(s.tiles, id),
    ensures
        ({
            let tile = s.new_tile(id, probe, foreground);
            let half = s.display.tile_width(TileSize::Half);
            let tiles = shifted(s.tiles, tile.position.row, tile.position.x as int, half, id).push(
                tile,
            );
            &&& extent(s.tiles, s.display) <= extent(tiles, s.display)
            &&& top_row(s.tiles) <= top_row(tiles)
            &&& max_offset(s.tiles, s.display) <= max_offset(tiles, s.display)
            &&& max_vertical(s.tiles, s.display) <= max_vertical(tiles, s.display)
        }),
{
    lemma_consistent_grounded(s);
    lemma_insertion_valid(s, id, probe, foreground);
    let tile = s.new_tile(id, probe, foreground);
    let half = s.display.tile_width(TileSize::Half);
    let moved = shifted(s.tiles, tile.position.row, tile.position.x as int, half, id);
    let tiles = moved.push(tile);
    lemma_extent(s.tiles, s.display);
    lemma_extent(tiles, s.display);
    crate::layout::lemma_top_row(s.tiles);
    crate::layout::lemma_top_row(tiles);
    if extent(s.tiles, s.display) != 0 {
        let i = choose|i: int|
            0 <= i < s.tiles.len() && (#[trigger] s.tiles[i]).end(s.display) == extent(
                s.tiles,
                s.display,
            );
        assert(s.tiles[i].valid(s.display));
        assert(tiles[i] == moved[i]);
        assert(tiles[i].end(s.display) >= s.tiles[i].end(s.display));
    }
    if top_row(s.tiles) != 0 {
        let i = choose|i: int|
            0 <= i < s.tiles.len() && (#[trigger] s.tiles[i]).position.row == top_row(s.tiles);
        assert(tiles[i] == moved[i]);
        assert(tiles[i].position.row == s.tiles[i].position.row);
    }
    let before = top_row(s.tiles) + 1;
    let after = top_row(tiles) + 1;
    let height = s.display.height as int;
    assert(before * height <= after * height) by (nonlinear_arith)
        requires
            before <= after,
            height >= 0,
    ;
}

/// Adding a window leaves the offsets in bounds. Where the new tile lies outside the
/// viewport, in part or whole, the viewport goes at once to where the tile is centred,
/// as far as the bounds with the new tile allow, and to the top of the row in view;
/// else the viewport stays as it is.
pub proof fn lemma_add_centres_the_viewport(
    s: TilerState,
    id: i64,
    probe: Option<WindowProbe>,
    foreground: i64,
    now: u64,
)
    requires
        s.wf(),
        s.add_outcome(id, probe) == AddOutcome::Tiled,
        s.can_add(),
    ensures
        s.added(id, probe, foreground, now).offsets_in_bounds(),
        s.centred_for(s.added(id, probe, foreground, now), s.insertion_point(foreground).x as int),
{
    lemma_consistent_grounded(s);
    lemma_added_consistent(s, id, probe, foreground, now);
    crate::laws::lemma_offsets_in_bounds(s.added(id, probe, foreground, now));
    lemma_insertion_valid(s, id, probe.unwrap(), foreground);
    lemma_insertion_widens(s, id, probe.unwrap(), foreground);
    let tile = s.new_tile(id, probe.unwrap(), foreground);
    let half = s.display.tile_width(TileSize::Half);
    let x = tile.position.x;
    let tiles = shifted(s.tiles, tile.position.row, x as int, half, id).push(tile);
    lemma_limits(tiles, s.display);
    lemma_limits(s.tiles, s.display);
    lemma_row_origin_bounds(s.viewport.current_row as int, s.display.height as int);
    let after = s.added(id, probe, foreground, now);
    assert forall|k: int| 0 <= k < tiles.len() implies (#[trigger] after.tiles[k]).position
        == tiles[k].position by {
    }
    crate::layout::lemma_positions_limits(tiles, after.tiles, s.display);
    let row = s.viewport.current_row as int;
    let top = top_row(tiles) + 1;
    let height = s.display.height as int;
    assert(row * height <= top * height) by (nonlinear_arith)
        requires
            row <= top,
            height >= 0,
    ;
}

/// A resize leaves the offsets in bounds.
pub proof fn lemma_resize_keeps_offsets_in_bounds(
    s: TilerState,
    id: i64,
    direction: Direction,
    probe: Option<WindowProbe>,
    foreground: i64,
    now: u64,
)
    requires
        s.wf(),
        s.can_resize(id, probe),
    ensures
        s.resized(id, direction, probe, foreground, now).offsets_in_bounds(),
{
    lemma_resized_consistent(s, id, direction, probe, foreground, now);
    crate::laws::lemma_offsets_in_bounds(s.resized(id, direction, probe, foreground, now));
}

/// A tile that changes its size keeps the state consistent.
pub proof fn lemma_toggled_consistent(s: TilerState, id: i64, direction: Direction)
    requires
        s.wf(),
        extent(s.tiles, s.display) + s.display.width - s.display.width / 2 <= MAX_EXTENT,
    ensures
        s.toggled(id, direction).wf(),
{
    lemma_consistent_grounded(s);
    lemma_extent(s.tiles, s.display);
    if manages(s.tiles, id) {
        lemma_tile_index(s.tiles, id);
        let i = tile_index(s.tiles, id);
        let tile = s.tiles[i];
        assert(tile.valid(s.display));
        assert(tile.end(s.display) <= extent(s.tiles, s.display));
        let size = TilerState::resized_size(tile.position.size, direction);
        let grown = s.display.tile_width(size) - s.display.tile_width(tile.position.size);
        let made_room = if grown > 0 {
            shifted(s.tiles, tile.position.row, tile.end(s.display), grown, tile.id)
        } else {
            s.tiles
        };
        if grown > 0 {
            assert forall|k: int| 0 <= k < s.tiles.len() implies #[trigger] made_room[k] == s.tiles[k]
                || made_room[k] == s.tiles[k].at_x(s.tiles[k].position.x + grown) by {
            }
            lemma_moved_right(s.tiles, made_room, s.display, grown);
        }
        assert(made_room[i] == tile);
        let resized = ManagedTile { position: RibbonPosition { size, ..tile.position }, ..tile };
        lemma_replace_tile(made_room, i, resized, s.display);
        let unsettled = TilerState {
            tiles: made_room.update(i, resized),
            needs_ribbon_recalc: true,
            ..s
        };
        lemma_settled_consistent(unsettled);
    }
}

/// A resize keeps the state consistent.
pub proof fn lemma_resized_consistent(
    s: TilerState,
    id: i64,
    direction: Direction,
    probe: Option<WindowProbe>,
    foreground: i64,
    now: u64,
)
    requires
        s.wf(),
        s.can_resize(id, probe),
    ensures
        s.resized(id, direction, probe, foreground, now).wf(),
{
    if manages(s.tiles, id) {
        lemma_toggled_consistent(s, id, direction);
        lemma_placing_consistent(s.toggled(id, direction), now);
    } else if s.add_outcome(id, probe).accepted() {
        lemma_added_consistent(s, id, probe, foreground, now);
        let added = s.added(id, probe, foreground, now);
        lemma_toggled_consistent(added, id, direction);
        lemma_placing_consistent(added.toggled(id, direction), now);
    }
}

/// Ending the transition of a tile keeps the state consistent, and the tiles where
/// they are.
pub proof fn lemma_stilled_consistent(s: TilerState, id: i64)
    requires
        s.wf(),
    ensures
        s.stilled(id).wf(),
        s.stilled(id).limits() == s.limits(),
        extent(s.stilled(id).tiles, s.display) == extent(s.tiles, s.display),
        s.stilled(id).tiles.len() == s.tiles.len(),
        manages(s.tiles, id) ==> tile_index(s.stilled(id).tiles, id) == tile_index(s.tiles, id)
            && manages(s.stilled(id).tiles, id),
        s.stilled(id).projection() == s.projection(),
{
    if manages(s.tiles, id) {
        lemma_tile_index(s.tiles, id);
        let i = tile_index(s.tiles, id);
        let tiles = s.tiles.update(i, ManagedTile { animation: None, ..s.tiles[i] });
        assert forall|k: int| 0 <= k < tiles.len() implies (#[trigger] tiles[k]).id == s.tiles[k].id
            && tiles[k].position == s.tiles[k].position && tiles[k].shown.bounded() && (
        match tiles[k].animation {
            Some(a) => a.valid(),
            None => true,
        }) by {
            assert(s.tiles[k].valid(s.display));
        }
        lemma_same_places_consistent(s, tiles);
        crate::layout::lemma_positions_limits(s.tiles, tiles, s.display);
        assert(crate::layout::same_windows(tiles, s.tiles));
        lemma_same_windows(tiles, s.tiles, id);
    }
}

/// A tile that goes to a neighbouring row keeps the state consistent.
proof fn lemma_row_move_consistent(s: TilerState, i: int, direction: Direction)
    requires
        s.wf(),
        has_room(s.tiles, s.display),
        0 <= i < s.tiles.len(),
        direction == Direction::Up || direction == Direction::Down,
    ensures
        s.after_row_move(i, direction).wf(),
{
    lemma_consistent_grounded(s);
    lemma_extent(s.tiles, s.display);
    let mover = s.tiles[i];
    assert(mover.valid(s.display));
    let row = TilerState::row_after_move(mover.position.row as int, direction);
    let width = s.display.tile_width(mover.position.size);
    let pushed = pushed_aside(s.tiles, s.display, row as i32, mover.position.x as int, width);
    assert forall|k: int| 0 <= k < s.tiles.len() implies #[trigger] pushed[k] == s.tiles[k]
        || pushed[k] == s.tiles[k].at_x(s.tiles[k].position.x + width) by {
    }
    lemma_moved_right(s.tiles, pushed, s.display, width);
    let risen = ManagedTile { position: RibbonPosition { row: row as i32, ..mover.position }, ..mover };
    if row == mover.position.row {
        assert(pushed[i].id == mover.id);
    } else {
        assert(pushed[i] == mover);
    }
    lemma_replace_tile(pushed, i, risen, s.display);
    let tiles = pushed.update(i, risen);
    lemma_limits(tiles, s.display);
    let v = clamp_int(
        s.viewport.vertical_offset + (row - mover.position.row) * s.display.height,
        0,
        max_vertical(tiles, s.display),
    ) as i32;
    let unsettled = TilerState {
        tiles,
        viewport: ViewportState {
            current_row: row as i32,
            vertical_offset: v,
            vertical_offset_target: v,
            ..s.viewport
        },
        ..s
    };
    lemma_settled_consistent(unsettled);
}

/// A tile that moves within its row keeps the state consistent.
proof fn lemma_step_consistent(s: TilerState, i: int, direction: Direction)
    requires
        s.wf(),
        has_room(s.tiles, s.display),
        0 <= i < s.tiles.len(),
        direction == Direction::Left || direction == Direction::Right,
    ensures
        s.after_step(i, direction).wf(),
{
    lemma_consistent_grounded(s);
    lemma_extent(s.tiles, s.display);
    let mover = s.tiles[i];
    assert(mover.valid(s.display));
    assert(mover.end(s.display) <= extent(s.tiles, s.display));
    let n = s.step_partner(i, direction);
    crate::scan::lemma_first_least(
        s.tiles.len() as int,
        crate::arrange::neighbour_distance(s.tiles, i, direction),
    );
    let new_x = s.x_after_move(i, direction);
    if n < s.tiles.len() {
        assert(crate::arrange::neighbour_distance(s.tiles, i, direction)(n).is_some());
        assert(s.tiles[n].valid(s.display));
        assert(s.tiles[n].end(s.display) <= extent(s.tiles, s.display));
        lemma_replace_tile(s.tiles, n, s.tiles[n].at_x(s.partner_x_after_move(i, direction)), s.display);
    }
    let swapped = if n < s.tiles.len() {
        s.tiles.update(n, s.tiles[n].at_x(s.partner_x_after_move(i, direction)))
    } else {
        s.tiles
    };
    assert(swapped[i] == mover);
    lemma_replace_tile(swapped, i, mover.at_x(new_x), s.display);
    let tiles = swapped.update(i, mover.at_x(new_x));
    lemma_limits(tiles, s.display);
    let c = clamp_int(
        s.viewport.ribbon_offset + (new_x - mover.position.x),
        0,
        max_offset(tiles, s.display),
    ) as i32;
    let unsettled = TilerState {
        tiles,
        viewport: ViewportState { ribbon_offset: c, ribbon_offset_target: c, ..s.viewport },
        ..s
    };
    lemma_settled_consistent(unsettled);
}

/// Letting the tiles glide from where another viewport had them keeps the state
/// consistent.
proof fn lemma_glided_consistent(landed: TilerState, from: crate::geometry::Projection, now: u64, id: i64)
    requires
        landed.wf(),
        from.valid(),
    ensures
        (TilerState {
            tiles: crate::schedule::glided(landed.tiles, from, landed.projection(), now, id),
            needs_ribbon_recalc: true,
            animation_running: true,
            ..landed
        }).wf(),
{
    lemma_consistent_grounded(landed);
    let after = crate::schedule::glided(landed.tiles, from, landed.projection(), now, id);
    assert forall|k: int| 0 <= k < landed.tiles.len() implies (#[trigger] after[k]).id
        == landed.tiles[k].id && after[k].position == landed.tiles[k].position
        && after[k].shown.bounded() && (match after[k].animation {
        Some(a) => a.valid(),
        None => true,
    }) by {
        assert(landed.tiles[k].valid(landed.display));
        lemma_screen_rect_bounded(from, landed.tiles[k].position);
        lemma_screen_rect_bounded(landed.projection(), landed.tiles[k].position);
        if landed.tiles[k].animation.is_some() {
            lemma_rect_at_bounded(landed.tiles[k].animation.unwrap(), now);
        }
    }
    lemma_same_places_consistent(
        TilerState { needs_ribbon_recalc: true, animation_running: true, ..landed },
        after,
    );
}

/// A move keeps the state consistent.
pub proof fn lemma_moved_consistent(s: TilerState, id: i64, direction: Direction, now: u64)
    requires
        s.wf(),
        has_room(s.tiles, s.display),
    ensures
        s.moved(id, direction, now).wf(),
{
    lemma_stilled_consistent(s, id);
    lemma_consistent_grounded(s);
    let still = s.stilled(id);
    if still.moves(id, direction) {
        lemma_tile_index(s.tiles, id);
        let i = tile_index(s.tiles, id);
        match direction {
            Direction::Up | Direction::Down => {
                lemma_row_move_consistent(still, i, direction);
                lemma_glided_consistent(still.after_row_move(i, direction), s.projection(), now, id);
            },
            _ => {
                lemma_step_consistent(still, i, direction);
                lemma_glided_consistent(still.after_step(i, direction), s.projection(), now, id);
            },
        }
    }
}

/// A look at the display keeps the state consistent.
pub proof fn lemma_resolution_consistent(s: TilerState, now: u64, display: Display)
    requires
        s.wf(),
        display.valid(),
    ensures
        s.resolution_checked(now, display).wf(),
{
    lemma_consistent_grounded(s);
    if s.resolution_poll_due(now) && display != s.display {
        let looked = TilerState { last_resolution_check: now, ..s };
        if s.tiles.len() == 0 {
            lemma_settled_consistent(TilerState { display, ..looked });
        } else {
            assert(tiles_sound(s.tiles)) by {
                assert forall|i: int| 0 <= i < s.tiles.len() implies (#[trigger] s.tiles[i]).sound() by {
                    assert(s.tiles[i].valid(s.display));
                }
            }
            lemma_pack_valid(s.tiles, display);
            let tiles = packed(s.tiles, display);
            lemma_limits(tiles, display);
            let x = clamp_int(
                s.viewport.ribbon_offset * display.width / (s.display.width as int),
                0,
                max_offset(tiles, display),
            ) as i32;
            let y = clamp_int(
                s.viewport.current_row * display.height,
                0,
                max_vertical(tiles, display),
            ) as i32;
            lemma_settled_consistent(
                TilerState {
                    display,
                    tiles,
                    viewport: ViewportState {
                        ribbon_offset: x,
                        ribbon_offset_target: x,
                        vertical_offset: y,
                        vertical_offset_target: y,
                        ..s.viewport
                    },
                    needs_ribbon_recalc: true,
                    ..looked
                },
            );
        }
        lemma_placing_consistent(looked.on_display(display), now);
    }
}

/// A tick keeps the state consistent.
pub proof fn lemma_ticked_consistent(s: TilerState, now: u64)
    requires
        s.wf(),
    ensures
        s.ticked(now).wf(),
        s.advanced(now).wf(),
{
    lemma_consistent_grounded(s);
    let scrolled = s.scrolled(now);
    crate::consistency::lemma_clamped_within(
        match s.viewport.scroll_animation {
            Some(a) => if a.finished(now) {
                ViewportState {
                    ribbon_offset: a.target_x,
                    ribbon_offset_target: a.target_x,
                    vertical_offset: a.target_y,
                    vertical_offset_target: a.target_y,
                    current_row: s.viewport.current_row,
                    scroll_animation: None,
                }
            } else {
                ViewportState {
                    ribbon_offset: a.offsets_at(now).0 as i32,
                    vertical_offset: a.offsets_at(now).1 as i32,
                    ..s.viewport
                }
            },
            None => s.viewport,
        },
        s.limits(),
        s.display,
    );
    assert(scrolled.wf());
    lemma_consistent_grounded(scrolled);
    let scrolling = s.viewport.scroll_animation.is_some();
    lemma_tick_valid(s.tiles, scrolled.projection(), scrolling, now);
    let tiles = s.tiles.filter_map(after_tick(scrolled.projection(), scrolling, now));
    let unsettled = TilerState {
        tiles,
        needs_ribbon_recalc: scrolled.needs_ribbon_recalc || tiles.len() != s.tiles.len(),
        ..scrolled
    };
    lemma_settled_consistent(unsettled);
    lemma_recalculated_consistent(s.rested(now), now);
}

/// Carrying out a command keeps the state consistent.
pub proof fn lemma_executed_consistent(s: TilerState, q: QueuedCommand, now: u64, foreground: i64)
    requires
        s.wf(),
    ensures
        s.executed(q, now, foreground).wf(),
{
    reveal(TilerState::executed);
    if s.has_room_for(q) {
        match q.command {
            TilerCommand::ResizeLeft => lemma_resized_consistent(
                s,
                q.hwnd,
                Direction::Left,
                q.probe,
                foreground,
                now,
            ),
            TilerCommand::ResizeRight => lemma_resized_consistent(
                s,
                q.hwnd,
                Direction::Right,
                q.probe,
                foreground,
                now,
            ),
            TilerCommand::MoveUp => lemma_moved_consistent(s, q.hwnd, Direction::Up, now),
            TilerCommand::MoveDown => lemma_moved_consistent(s, q.hwnd, Direction::Down, now),
            TilerCommand::MoveLeft => lemma_moved_consistent(s, q.hwnd, Direction::Left, now),
            TilerCommand::MoveRight => lemma_moved_consistent(s, q.hwnd, Direction::Right, now),
            TilerCommand::AddWindow => lemma_added_consistent(s, q.hwnd, q.probe, foreground, now),
            TilerCommand::PanLeft => lemma_viewing_consistent(s, Direction::Left, q.hwnd, now),
            TilerCommand::PanRight => lemma_viewing_consistent(s, Direction::Right, q.hwnd, now),
            TilerCommand::PanUp => lemma_viewing_consistent(s, Direction::Up, q.hwnd, now),
            TilerCommand::PanDown => lemma_viewing_consistent(s, Direction::Down, q.hwnd, now),
            TilerCommand::ScrollToWindow => lemma_viewing_consistent(s, Direction::Up, q.hwnd, now),
            TilerCommand::CycleFPS => lemma_viewing_consistent(s, Direction::Up, q.hwnd, now),
            TilerCommand::IncreaseTransparency => lemma_look_consistent(
                s,
                TRANSPARENCY_STEP,
                MARGIN_STEP,
            ),
            TilerCommand::DecreaseTransparency => lemma_look_consistent(
                s,
                -TRANSPARENCY_STEP as i8,
                MARGIN_STEP,
            ),
            TilerCommand::IncreaseMargins => lemma_look_consistent(s, TRANSPARENCY_STEP, MARGIN_STEP),
            TilerCommand::DecreaseMargins => lemma_look_consistent(
                s,
                TRANSPARENCY_STEP,
                -MARGIN_STEP as i32,
            ),
            TilerCommand::RemoveWindow => lemma_removed_consistent(s, q.hwnd, now),
            TilerCommand::ForceRecalc => lemma_recalculated_consistent(s, now),
        }
    }
}

/// A processing cycle keeps the state consistent, however far it has come.
pub proof fn lemma_run_consistent(
    trace: Trace,
    queue: Seq<QueuedCommand>,
    n: int,
    now: u64,
    foreground: i64,
)
    requires
        trace.state.wf(),
        0 <= n <= queue.len(),
    ensures
        trace.run(queue, n, now, foreground).state.wf(),
    decreases n,
{
    if n > 0 {
        lemma_run_consistent(trace, queue, n - 1, now, foreground);
        let reached = trace.run(queue, n - 1, now, foreground);
        let q = queue[n - 1];
        reveal(Trace::step);
        let noted_state = TilerState {
            throttle: noted(reached.state.throttle, q.command, now),
            ..reached.state
        };
        assert(noted_state.wf());
        lemma_executed_consistent(noted_state, q, now, foreground);
    }
}

/// A processing cycle takes a consistent state to a consistent state, whatever commands
/// wait in the queue and whatever the world looks like. So do a tick, the periodic
/// check, a command coming in, and the shutdown. As the viewport of a consistent state
/// is within its limits, it is within its limits after any sequence of these.
pub proof fn lemma_consistency_is_kept(s: TilerState, now: u64, around: Surroundings, q: QueuedCommand)
    requires
        s.wf(),
        around.display.valid(),
    ensures
        s.cycle(now, around).state.wf(),
        s.ticked(now).wf(),
        s.recalculation_checked(now, around.closed@).wf(),
        s.queued(q).wf(),
        s.shut_down().wf(),
{
    let taken = TilerState { queue: Seq::empty(), ..s };
    lemma_resolution_consistent(taken, now, around.display);
    lemma_cleaned_consistent(taken.resolution_checked(now, around.display), around.closed@);
    lemma_cleaned_consistent(
        taken.resolution_checked(now, around.display).cleaned(around.closed@),
        around.minimized@,
    );
    lemma_run_consistent(s.cycle_start(now, around), s.queue, s.queue.len() as int, now, around.foreground);
    lemma_ticked_consistent(s, now);
    lemma_cleaned_consistent(s, around.closed@);
    lemma_recalculated_consistent(s.cleaned(around.closed@), now);
    lemma_limits(Seq::<ManagedTile>::empty(), s.display);
}

/// The offsets of a consistent state are in bounds, and they are in bounds again after
/// a processing cycle, after a tick and after the periodic check, whatever these do to
/// the tiles.
pub proof fn lemma_bounds_are_kept(s: TilerState, now: u64, around: Surroundings)
    requires
        s.wf(),
        around.display.valid(),
    ensures
        s.offsets_in_bounds(),
        s.cycle(now, around).state.offsets_in_bounds(),
        s.ticked(now).offsets_in_bounds(),
        s.recalculation_checked(now, around.closed@).offsets_in_bounds(),
{
    let q = QueuedCommand { command: TilerCommand::PanLeft, hwnd: 0, timestamp: now, probe: None };
    lemma_consistency_is_kept(s, now, around, q);
    crate::laws::lemma_offsets_in_bounds(s);
    crate::laws::lemma_offsets_in_bounds(s.cycle(now, around).state);
    crate::laws::lemma_offsets_in_bounds(s.ticked(now));
    crate::laws::lemma_offsets_in_bounds(s.recalculation_checked(now, around.closed@));
}

} // verus!
