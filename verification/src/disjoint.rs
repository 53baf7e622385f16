//! Rows without overlap: which operations keep the tiles of every row apart.
//!
//! Packing makes every row free of overlap. Adding a tile, resizing a tile and moving
//! a tile within its row keep it so. A move to another row keeps it so where the tiles
//! it pushes aside make room; where one of them starts left of the moved tile, or runs
//! into a tile that stays, the two overlap until the next recalculation.

use vstd::prelude::*;
use crate::arrange::{edge_distance, has_room, in_the_way, nearest_edge, neighbour_distance, shifted};
use crate::commands::WindowProbe;
use crate::geometry::{Direction, Display, TileSize, MAX_EXTENT};
use crate::layout::{extent, lemma_extent, lemma_limits, lemma_tile_index, manages, same_positions,
    tile_index, tiles_valid, ManagedTile};
use crate::model::{AddOutcome, TilerState};
use crate::packing::rows_disjoint;
use crate::scan::{first_least, lemma_first_least, lemma_first_where};

verus! {

/// Whether the tiles of a row overlap is a matter of the tiles' places alone.
pub proof fn lemma_disjoint_by_position(a: Seq<ManagedTile>, b: Seq<ManagedTile>, display: Display)
    requires
        same_positions(a, b),
        rows_disjoint(a, display),
    ensures
        rows_disjoint(b, display),
{
    reveal(rows_disjoint);
    assert forall|i: int, j: int|
        0 <= i < b.len() && 0 <= j < b.len() && i != j && b[i].position.row
            == b[j].position.row implies #[trigger] b[i].end(display) <= b[j].position.x
        || #[trigger] b[j].end(display) <= b[i].position.x by {
        assert(a[i].position == b[i].position);
        assert(a[j].position == b[j].position);
        assert(a[i].end(display) == b[i].end(display));
        assert(a[j].end(display) == b[j].end(display));
    }
}

/// No tile of `row` lies across `x`: each starts at or right of it, or ends at or left
/// of it.
pub open spec fn clear_at(tiles: Seq<ManagedTile>, display: Display, row: i32, x: int) -> bool {
    forall|i: int|
        0 <= i < tiles.len() && (#[trigger] tiles[i]).position.row == row ==> tiles[i].position.x >= x
            || tiles[i].end(display) <= x
}

/// In a row without overlap, no tile lies across an edge of another.
pub proof fn lemma_edges_are_clear(tiles: Seq<ManagedTile>, display: Display, t: int, x: int)
    requires
        display.valid(),
        rows_disjoint(tiles, display),
        0 <= t < tiles.len(),
        x == tiles[t].position.x || x == tiles[t].end(display),
    ensures
        clear_at(tiles, display, tiles[t].position.row, x),
{
    reveal(rows_disjoint);
    assert forall|i: int|
        0 <= i < tiles.len() && (#[trigger] tiles[i]).position.row
            == tiles[t].position.row implies tiles[i].position.x >= x || tiles[i].end(display)
        <= x by {
        if i != t {
            assert(tiles[i].end(display) <= tiles[t].position.x || tiles[t].end(display)
                <= tiles[i].position.x);
        }
    }
}

/// The nearest edge is an edge of a tile of the row, or the fallback where the row is
/// empty.
pub proof fn lemma_nearest_edge(
    tiles: Seq<ManagedTile>,
    display: Display,
    row: i32,
    center: int,
    fallback: int,
)
    ensures
        ({
            let x = nearest_edge(tiles, display, row, center, fallback);
            ||| x == fallback && forall|i: int|
                0 <= i < tiles.len() ==> (#[trigger] tiles[i]).position.row != row
            ||| exists|t: int|
                0 <= t < tiles.len() && (#[trigger] tiles[t]).position.row == row && (x
                    == tiles[t].position.x || x == tiles[t].end(display))
        }),
{
    let key = edge_distance(tiles, display, row, center);
    lemma_first_least(2 * (tiles.len() as int), key);
    match first_least(2 * (tiles.len() as int), key) {
        Some(e) => {
            assert(key(e).is_some());
            assert(tiles[e / 2].position.row == row);
            assert(0 <= e / 2 < tiles.len());
        },
        None => {
            assert forall|i: int| 0 <= i < tiles.len() implies (#[trigger] tiles[i]).position.row
                != row by {
                assert(key(2 * i).is_none());
                assert((2 * i) / 2 == i);
            }
        },
    }
}

/// Making room at a point that no tile lies across, and putting a tile there, keeps
/// the rows free of overlap.
pub proof fn lemma_insert_keeps_disjoint(
    tiles: Seq<ManagedTile>,
    display: Display,
    tile: ManagedTile,
)
    requires
        display.valid(),
        tiles_valid(tiles, display),
        has_room(tiles, display),
        rows_disjoint(tiles, display),
        !manages(tiles, tile.id),
        0 <= tile.position.x,
        clear_at(tiles, display, tile.position.row, tile.position.x as int),
    ensures
        rows_disjoint(
            shifted(
                tiles,
                tile.position.row,
                tile.position.x as int,
                display.tile_width(tile.position.size),
                tile.id,
            ).push(tile),
            display,
        ),
{
    reveal(rows_disjoint);
    lemma_extent(tiles, display);
    let by = display.tile_width(tile.position.size);
    let moved = shifted(tiles, tile.position.row, tile.position.x as int, by, tile.id);
    let after = moved.push(tile);
    assert forall|i: int| 0 <= i < tiles.len() implies (#[trigger] moved[i]).position.row
        == tiles[i].position.row && moved[i].position.size == tiles[i].position.size
        && moved[i].position.x == (if tiles[i].position.row == tile.position.row
        && tiles[i].position.x >= tile.position.x {
        tiles[i].position.x + by
    } else {
        tiles[i].position.x as int
    }) by {
        assert(tiles[i].valid(display));
        assert(tiles[i].end(display) <= extent(tiles, display));
        assert(tiles[i].id != tile.id);
    }
    assert forall|i: int, j: int|
        0 <= i < after.len() && 0 <= j < after.len() && i != j && after[i].position.row
            == after[j].position.row implies #[trigger] after[i].end(display) <= after[j].position.x
        || #[trigger] after[j].end(display) <= after[i].position.x by {
        if i < tiles.len() && j < tiles.len() {
            assert(after[i] == moved[i]);
            assert(after[j] == moved[j]);
            assert(tiles[i].end(display) <= tiles[j].position.x || tiles[j].end(display)
                <= tiles[i].position.x);
        } else if i < tiles.len() {
            assert(after[i] == moved[i]);
            assert(after[j] == tile);
            assert(tiles[i].position.x >= tile.position.x || tiles[i].end(display)
                <= tile.position.x);
        } else {
            assert(after[j] == moved[j]);
            assert(after[i] == tile);
            assert(tiles[j].position.x >= tile.position.x || tiles[j].end(display)
                <= tile.position.x);
        }
    }
}

impl TilerState {
    /// No two tiles of a row overlap.
    pub open spec fn rows_apart(self) -> bool {
        rows_disjoint(self.tiles, self.display)
    }

    /// Tile `i` finds room in the row that a move in `direction` takes it to: every
    /// tile in its way there starts at or right of its x, and, moved right by its
    /// width, meets no tile of that row that stays where it is.
    pub open spec fn finds_room(self, i: int, direction: Direction) -> bool {
        let mover = self.tiles[i];
        let row = Self::row_after_move(mover.position.row as int, direction);
        let x = mover.position.x as int;
        let width = self.display.tile_width(mover.position.size);
        forall|k: int, m: int|
            0 <= k < self.tiles.len() && 0 <= m < self.tiles.len() && k != i && m != i && (
            #[trigger] self.tiles[k]).position.row == row && (#[trigger] self.tiles[m]).position.row
                == row && self.tiles[k].overlaps(self.display, x, width) ==> x
                <= self.tiles[k].position.x && (!self.tiles[m].overlaps(self.display, x, width)
                ==> !self.tiles[m].overlaps(
                self.display,
                self.tiles[k].position.x + width,
                self.display.tile_width(self.tiles[k].position.size),
            ))
    }

    /// A move of the window leaves no tile in the way of another: any move within the
    /// row, and a move to the row above or below where the tile finds room.
    pub open spec fn moves_cleanly(self, id: i64, direction: Direction) -> bool {
        manages(self.tiles, id) && match direction {
            Direction::Up | Direction::Down => self.finds_room(tile_index(self.tiles, id), direction),
            _ => true,
        }
    }

    /// Between this state and `after`, no tile changed its row or its size, and no
    /// tile but the tiles `i` and `n` changed its x.
    pub open spec fn differs_in_two(self, after: TilerState, i: int, n: int) -> bool {
        &&& after.tiles.len() == self.tiles.len()
        &&& forall|k: int|
            0 <= k < self.tiles.len() ==> (#[trigger] after.tiles[k]).id == self.tiles[k].id
                && after.tiles[k].position.row == self.tiles[k].position.row
                && after.tiles[k].position.size == self.tiles[k].position.size && (k != i && k != n
                ==> after.tiles[k].position.x == self.tiles[k].position.x)
    }
}

/// Adding a window keeps the rows free of overlap.
pub proof fn lemma_add_keeps_rows_apart(
    s: TilerState,
    id: i64,
    probe: Option<WindowProbe>,
    foreground: i64,
    now: u64,
)
    requires
        s.wf(),
        s.add_outcome(id, probe) == AddOutcome::Tiled ==> s.can_add(),
        s.rows_apart(),
    ensures
        s.added(id, probe, foreground, now).rows_apart(),
{
    if s.add_outcome(id, probe) == AddOutcome::Tiled {
        let tile = s.new_tile(id, probe.unwrap(), foreground);
        let row = s.viewport.current_row;
        let fallback = s.viewport.ribbon_offset as int;
        let x = nearest_edge(s.tiles, s.display, row, s.focus_center(foreground), fallback);
        lemma_nearest_edge(s.tiles, s.display, row, s.focus_center(foreground), fallback);
        lemma_limits(s.tiles, s.display);
        lemma_extent(s.tiles, s.display);
        if x == fallback && (forall|i: int|
            0 <= i < s.tiles.len() ==> (#[trigger] s.tiles[i]).position.row != row) {
            assert(clear_at(s.tiles, s.display, row, x));
        } else {
            let t = choose|t: int|
                0 <= t < s.tiles.len() && (#[trigger] s.tiles[t]).position.row == row && (x
                    == s.tiles[t].position.x || x == s.tiles[t].end(s.display));
            assert(s.tiles[t].valid(s.display));
            lemma_edges_are_clear(s.tiles, s.display, t, x);
        }
        assert(0 <= x <= MAX_EXTENT) by {
            if !(x == fallback && (forall|i: int|
                0 <= i < s.tiles.len() ==> (#[trigger] s.tiles[i]).position.row != row)) {
                let t = choose|t: int|
                    0 <= t < s.tiles.len() && (#[trigger] s.tiles[t]).position.row == row && (x
                        == s.tiles[t].position.x || x == s.tiles[t].end(s.display));
                assert(s.tiles[t].valid(s.display));
            }
        }
        assert(tile.position.x == x);
        lemma_insert_keeps_disjoint(s.tiles, s.display, tile);
        let half = s.display.tile_width(TileSize::Half);
        let placed = shifted(s.tiles, row, x, half, id).push(tile);
        let after = s.added(id, probe, foreground, now).tiles;
        assert(same_positions(placed, after));
        lemma_disjoint_by_position(placed, after, s.display);
    }
}

/// A tile that changes its size keeps the rows free of overlap.
pub proof fn lemma_toggle_keeps_rows_apart(s: TilerState, id: i64, direction: Direction)
    requires
        s.wf(),
        extent(s.tiles, s.display) + s.display.width - s.display.width / 2 <= MAX_EXTENT,
        s.rows_apart(),
    ensures
        s.toggled(id, direction).rows_apart(),
{
    if manages(s.tiles, id) {
        reveal(rows_disjoint);
        lemma_tile_index(s.tiles, id);
        lemma_extent(s.tiles, s.display);
        let t = tile_index(s.tiles, id);
        let tile = s.tiles[t];
        assert(tile.valid(s.display));
        let size = TilerState::resized_size(tile.position.size, direction);
        let grown = s.display.tile_width(size) - s.display.tile_width(tile.position.size);
        let after = s.resized_tiles(t, direction);
        assert(after == s.toggled(id, direction).tiles);
        assert forall|i: int| 0 <= i < s.tiles.len() implies (#[trigger] after[i]).position.row
            == s.tiles[i].position.row && after[i].end(s.display) == (if i == t {
            tile.end(s.display) + grown
        } else if grown > 0 && s.tiles[i].position.row == tile.position.row
            && s.tiles[i].position.x >= tile.end(s.display) {
            s.tiles[i].end(s.display) + grown
        } else {
            s.tiles[i].end(s.display)
        }) && after[i].position.x == (if i != t && grown > 0 && s.tiles[i].position.row
            == tile.position.row && s.tiles[i].position.x >= tile.end(s.display) {
            s.tiles[i].position.x + grown
        } else {
            s.tiles[i].position.x as int
        }) by {
            assert(s.tiles[i].valid(s.display));
            assert(s.tiles[i].end(s.display) <= extent(s.tiles, s.display));
            if i != t {
                assert(s.tiles[i].id != id);
            }
        }
        assert forall|i: int, j: int|
            0 <= i < after.len() && 0 <= j < after.len() && i != j && after[i].position.row
                == after[j].position.row implies #[trigger] after[i].end(s.display)
            <= after[j].position.x || #[trigger] after[j].end(s.display) <= after[i].position.x by {
            assert(s.tiles[i].end(s.display) <= s.tiles[j].position.x || s.tiles[j].end(s.display)
                <= s.tiles[i].position.x);
            assert(s.tiles[i].valid(s.display));
            assert(s.tiles[j].valid(s.display));
        }
    }
}

/// A resize keeps the rows free of overlap, also where it adds the window first.
pub proof fn lemma_resize_keeps_rows_apart(
    s: TilerState,
    id: i64,
    direction: Direction,
    probe: Option<WindowProbe>,
    foreground: i64,
    now: u64,
)
    requires
        s.wf(),
        s.can_resize(id, probe),
        s.rows_apart(),
    ensures
        s.resized(id, direction, probe, foreground, now).rows_apart(),
{
    if manages(s.tiles, id) {
        lemma_toggle_keeps_rows_apart(s, id, direction);
        let toggled = s.toggled(id, direction);
        assert(same_positions(toggled.tiles, toggled.all_animated(now).tiles));
        lemma_disjoint_by_position(toggled.tiles, toggled.all_animated(now).tiles, s.display);
    } else if s.add_outcome(id, probe).accepted() {
        lemma_add_keeps_rows_apart(s, id, probe, foreground, now);
        crate::upkeep::lemma_added_consistent(s, id, probe, foreground, now);
        let added = s.added(id, probe, foreground, now);
        lemma_toggle_keeps_rows_apart(added, id, direction);
        let toggled = added.toggled(id, direction);
        assert(same_positions(toggled.tiles, toggled.all_animated(now).tiles));
        lemma_disjoint_by_position(toggled.tiles, toggled.all_animated(now).tiles, s.display);
    }
}

/// A tile that goes to a neighbouring row where it finds room keeps the rows free of
/// overlap.
proof fn lemma_clean_row_move(s: TilerState, i: int, direction: Direction)
    requires
        s.display.valid(),
        tiles_valid(s.tiles, s.display),
        s.rows_apart(),
        0 <= i < s.tiles.len(),
        direction == Direction::Up || direction == Direction::Down,
        s.finds_room(i, direction),
    ensures
        rows_disjoint(s.tiles_after_row_move(i, direction), s.display),
{
    reveal(rows_disjoint);
    let mover = s.tiles[i];
    let x = mover.position.x as int;
    let width = s.display.tile_width(mover.position.size);
    let after = s.tiles_after_row_move(i, direction);
    let row = TilerState::row_after_move(mover.position.row as int, direction);
    let pushed = |k: int| k != i && s.tiles[k].position.row == row && s.tiles[k].overlaps(s.display, x, width);
    assert(mover.valid(s.display));
    assert forall|k: int| 0 <= k < after.len() implies (#[trigger] after[k]).position.size
        == s.tiles[k].position.size && after[k].position.row == (if k == i {
        row
    } else {
        s.tiles[k].position.row as int
    }) && after[k].position.x == (if pushed(k) {
        s.tiles[k].position.x + width
    } else {
        s.tiles[k].position.x as int
    }) by {
        assert(s.tiles[k].valid(s.display));
        if k != i && s.tiles[k].position.row == mover.position.row {
            assert(s.tiles[k].end(s.display) <= mover.position.x || mover.end(s.display)
                <= s.tiles[k].position.x);
        }
    }
    assert forall|a: int, b: int|
        0 <= a < after.len() && 0 <= b < after.len() && a != b && after[a].position.row
            == after[b].position.row implies #[trigger] after[a].end(s.display)
        <= after[b].position.x || #[trigger] after[b].end(s.display) <= after[a].position.x by {
        if a == i {
            if pushed(b) {
                assert(x <= s.tiles[b].position.x);
            }
        } else if b == i {
            if pushed(a) {
                assert(x <= s.tiles[a].position.x);
            }
        } else {
            assert(s.tiles[a].end(s.display) <= s.tiles[b].position.x || s.tiles[b].end(s.display)
                <= s.tiles[a].position.x);
            if pushed(a) && !pushed(b) {
                assert(!s.tiles[b].overlaps(
                    s.display,
                    s.tiles[a].position.x + width,
                    s.display.tile_width(s.tiles[a].position.size),
                ));
            } else if pushed(b) && !pushed(a) {
                assert(!s.tiles[a].overlaps(
                    s.display,
                    s.tiles[b].position.x + width,
                    s.display.tile_width(s.tiles[b].position.size),
                ));
            }
        }
    }
}

/// A tile that moves within its row, into free space or changing places with its
/// neighbour, keeps the rows free of overlap.
pub proof fn lemma_step_keeps_disjoint(s: TilerState, i: int, direction: Direction)
    requires
        s.display.valid(),
        tiles_valid(s.tiles, s.display),
        has_room(s.tiles, s.display),
        s.rows_apart(),
        0 <= i < s.tiles.len(),
        direction == Direction::Left || direction == Direction::Right,
    ensures
        rows_disjoint(s.tiles_after_step(i, direction), s.display),
{
    reveal(rows_disjoint);
    lemma_extent(s.tiles, s.display);
    let mover = s.tiles[i];
    let width = s.display.tile_width(mover.position.size);
    let after = s.tiles_after_step(i, direction);
    let proposed = s.proposed_x(mover.position.x as int, direction);
    let blocked = in_the_way(s.tiles, s.display, i, proposed);
    lemma_first_where(s.tiles.len() as int, blocked);
    let key = neighbour_distance(s.tiles, i, direction);
    lemma_first_least(s.tiles.len() as int, key);
    let n = s.step_partner(i, direction);
    let new_x = s.x_after_move(i, direction);
    let partner_x = s.partner_x_after_move(i, direction);
    assert(mover.valid(s.display));
    assert(mover.end(s.display) <= extent(s.tiles, s.display));
    if n < s.tiles.len() {
        assert(key(n).is_some());
        assert(s.tiles[n].valid(s.display));
        assert(s.tiles[n].end(s.display) <= extent(s.tiles, s.display));
        assert(s.tiles[i].end(s.display) <= s.tiles[n].position.x || s.tiles[n].end(s.display)
            <= s.tiles[i].position.x);
    }
    assert forall|a: int| 0 <= a < after.len() implies (#[trigger] after[a]).position.row
        == s.tiles[a].position.row && after[a].position.size == s.tiles[a].position.size
        && after[a].position.x == (if a == i {
        new_x
    } else if a == n {
        partner_x
    } else {
        s.tiles[a].position.x as int
    }) by {
    }
    assert forall|a: int, b: int|
        0 <= a < after.len() && 0 <= b < after.len() && a != b && after[a].position.row
            == after[b].position.row implies #[trigger] after[a].end(s.display)
        <= after[b].position.x || #[trigger] after[b].end(s.display) <= after[a].position.x by {
        assert(s.tiles[a].valid(s.display));
        assert(s.tiles[b].valid(s.display));
        assert(s.tiles[a].end(s.display) <= s.tiles[b].position.x || s.tiles[b].end(s.display)
            <= s.tiles[a].position.x);
        if s.tiles[a].position.row == mover.position.row {
            if a != i {
                assert(s.tiles[i].end(s.display) <= s.tiles[a].position.x || s.tiles[a].end(s.display)
                    <= s.tiles[i].position.x);
                assert(blocked(a) == s.tiles[a].overlaps(s.display, proposed, width));
                if s.step_blocked(i, direction) && key(a).is_some() {
                    assert(n < s.tiles.len());
                    assert(key(n).unwrap() <= key(a).unwrap());
                }
            }
            if b != i {
                assert(s.tiles[i].end(s.display) <= s.tiles[b].position.x || s.tiles[b].end(s.display)
                    <= s.tiles[i].position.x);
                assert(blocked(b) == s.tiles[b].overlaps(s.display, proposed, width));
                if s.step_blocked(i, direction) && key(b).is_some() {
                    assert(n < s.tiles.len());
                    assert(key(n).unwrap() <= key(b).unwrap());
                }
            }
            if n < s.tiles.len() {
                if a != n {
                    assert(s.tiles[n].end(s.display) <= s.tiles[a].position.x || s.tiles[a].end(
                        s.display,
                    ) <= s.tiles[n].position.x);
                }
                if b != n {
                    assert(s.tiles[n].end(s.display) <= s.tiles[b].position.x || s.tiles[b].end(
                        s.display,
                    ) <= s.tiles[n].position.x);
                }
            } else if !s.step_blocked(i, direction) {
                if a != i {
                    assert(!blocked(a));
                }
                if b != i {
                    assert(!blocked(b));
                }
            }
        }
    }
}

/// A move that leaves no tile in the way of another keeps the rows free of overlap.
pub proof fn lemma_clean_move_keeps_rows_apart(s: TilerState, id: i64, direction: Direction, now: u64)
    requires
        s.wf(),
        has_room(s.tiles, s.display),
        s.rows_apart(),
        s.stilled(id).moves_cleanly(id, direction),
    ensures
        s.moved(id, direction, now).rows_apart(),
{
    let still = s.stilled(id);
    lemma_tile_index(s.tiles, id);
    let i = tile_index(s.tiles, id);
    assert(same_positions(s.tiles, still.tiles));
    lemma_disjoint_by_position(s.tiles, still.tiles, s.display);
    crate::layout::lemma_positions_limits(s.tiles, still.tiles, s.display);
    crate::layout::lemma_same_windows(still.tiles, s.tiles, id);
    crate::reshape::lemma_replace_tile(
        s.tiles,
        i,
        ManagedTile { animation: None, ..s.tiles[i] },
        s.display,
    );
    if still.moves(id, direction) {
        let landed = match direction {
            Direction::Up | Direction::Down => still.after_row_move(i, direction),
            _ => still.after_step(i, direction),
        };
        match direction {
            Direction::Up | Direction::Down => {
                lemma_clean_row_move(still, i, direction);
            },
            _ => {
                lemma_step_keeps_disjoint(still, i, direction);
            },
        }
        let after = s.moved(id, direction, now).tiles;
        assert(same_positions(landed.tiles, after));
        lemma_disjoint_by_position(landed.tiles, after, s.display);
    }
}

/// A move within the row keeps the rows free of overlap. No tile changes its row or
/// its size, and at most the moved tile and the neighbour it changes places with
/// change their x.
pub proof fn lemma_step_keeps_rows_apart(s: TilerState, id: i64, direction: Direction, now: u64)
    requires
        s.wf(),
        has_room(s.tiles, s.display),
        direction == Direction::Left || direction == Direction::Right,
    ensures
        s.rows_apart() ==> s.moved(id, direction, now).rows_apart(),
        manages(s.tiles, id) ==> s.differs_in_two(
            s.moved(id, direction, now),
            tile_index(s.tiles, id),
            s.stilled(id).step_partner(tile_index(s.tiles, id), direction),
        ),
{
    if manages(s.tiles, id) {
        let still = s.stilled(id);
        lemma_tile_index(s.tiles, id);
        let i = tile_index(s.tiles, id);
        crate::upkeep::lemma_stilled_consistent(s, id);
        if s.rows_apart() {
            lemma_clean_move_keeps_rows_apart(s, id, direction, now);
        }
        lemma_extent(still.tiles, s.display);
        let n = still.step_partner(i, direction);
        let key = neighbour_distance(still.tiles, i, direction);
        lemma_first_least(still.tiles.len() as int, key);
        let after = s.moved(id, direction, now);
        assert(still.tiles[i].valid(s.display));
        if n < still.tiles.len() {
            assert(key(n).is_some());
            assert(still.tiles[n].valid(s.display));
            assert(still.tiles[n].end(s.display) <= extent(still.tiles, s.display));
        }
        assert forall|k: int| 0 <= k < s.tiles.len() implies (#[trigger] after.tiles[k]).id
            == s.tiles[k].id && after.tiles[k].position.row == s.tiles[k].position.row
            && after.tiles[k].position.size == s.tiles[k].position.size && (k != i && k != n
            ==> after.tiles[k].position.x == s.tiles[k].position.x) by {
            assert(still.tiles[k].position == s.tiles[k].position);
            assert(still.tiles[k].id == s.tiles[k].id);
        }
    }
}

/// A recalculation makes the rows free of overlap, whatever they were.
pub proof fn lemma_recalculation_sets_rows_apart(s: TilerState, now: u64)
    requires
        s.wf(),
    ensures
        s.recalculated(now).rows_apart(),
{
    crate::laws::lemma_recalculation_packs(s, now);
}

} // verus!
