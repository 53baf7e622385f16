//! Resizing a tile and moving a tile, within its row or to a neighbouring row.

use vstd::prelude::*;
use crate::arrange::{find_neighbour, find_obstacle, first_obstacle, has_room, neighbour, push_aside,
    pushed_aside, shift_right, shifted};
use crate::commands::WindowProbe;
use crate::geometry::{clamp_i64, clamp_int, lemma_row_origin_bounds, max_int, Direction, Display,
    Projection, RibbonPosition, TileSize, MAX_EXTENT, MAX_ROW};
use crate::layout::{distinct_ids, extent, find_tile, horizontal_limit, lemma_extent, lemma_limits,
    lemma_positions_limits, manages, max_offset, max_vertical, same_windows, tile_index, tiles_valid,
    vertical_limit, ManagedTile};
use crate::model::{AddOutcome, TilerState};
use crate::schedule::{animate_universe_movement, glided};
use crate::tiler::RibbonTiler;
use crate::viewport::ViewportState;

verus! {

/// Putting a valid tile in the place of a tile with the same id keeps the tiles valid.
pub proof fn lemma_replace_tile(tiles: Seq<ManagedTile>, i: int, tile: ManagedTile, display: Display)
    requires
        tiles_valid(tiles, display),
        0 <= i < tiles.len(),
        tile.valid(display),
        tile.id == tiles[i].id,
    ensures
        tiles_valid(tiles.update(i, tile), display),
        same_windows(tiles.update(i, tile), tiles),
{
    let after = tiles.update(i, tile);
    assert forall|k: int| 0 <= k < after.len() implies (#[trigger] after[k]).valid(display) by {
        if k != i {
            assert(tiles[k].valid(display));
        }
    }
    assert(distinct_ids(after)) by {
        assert forall|a: int, b: int|
            0 <= a < after.len() && 0 <= b < after.len() && a != b implies after[a].id
            != after[b].id by {
            assert(after[a].id == tiles[a].id);
            assert(after[b].id == tiles[b].id);
        }
    }
}

impl TilerState {
    /// The size a tile has after a resize in `direction`: the other size for a
    /// horizontal direction, the same size for a vertical one.
    pub open spec fn resized_size(size: TileSize, direction: Direction) -> TileSize {
        match direction {
            Direction::Left | Direction::Right => size.toggled(),
            _ => size,
        }
    }

    /// The tiles after tile `i` was resized. Where it grows, the tiles of its row that
    /// start at or right of its old end move right by the width it gains; where it
    /// shrinks, nothing else moves.
    pub open spec fn resized_tiles(self, i: int, direction: Direction) -> Seq<ManagedTile> {
        let tile = self.tiles[i];
        let size = Self::resized_size(tile.position.size, direction);
        let grown = self.display.tile_width(size) - self.display.tile_width(tile.position.size);
        let made_room = if grown > 0 {
            shifted(self.tiles, tile.position.row, tile.end(self.display), grown, tile.id)
        } else {
            self.tiles
        };
        made_room.update(i, ManagedTile { position: RibbonPosition { size, ..tile.position }, ..tile })
    }

    /// The state after a tile changed its size. Nothing changes where the window is no
    /// tile.
    pub open spec fn toggled(self, id: i64, direction: Direction) -> TilerState {
        if manages(self.tiles, id) {
            TilerState {
                tiles: self.resized_tiles(tile_index(self.tiles, id), direction),
                needs_ribbon_recalc: true,
                ..self
            }.settled()
        } else {
            self
        }
    }

    /// The state after a resize was asked for. A window that is no tile is added
    /// first, and nothing more happens if it is turned away. Then the tile changes its
    /// size, and every tile is sent to its place on screen.
    pub open spec fn resized(
        self,
        id: i64,
        direction: Direction,
        probe: Option<WindowProbe>,
        foreground: i64,
        now: u64,
    ) -> TilerState {
        if manages(self.tiles, id) {
            self.toggled(id, direction).all_animated(now)
        } else if self.add_outcome(id, probe).accepted() {
            self.added(id, probe, foreground, now).toggled(id, direction).all_animated(now)
        } else {
            self
        }
    }

    /// The row a tile of `row` goes to on a vertical move; its own row where the move
    /// has nowhere to go.
    pub open spec fn row_after_move(row: int, direction: Direction) -> int {
        match direction {
            Direction::Up => if row > 0 {
                row - 1
            } else {
                row
            },
            Direction::Down => if row < MAX_ROW {
                row + 1
            } else {
                row
            },
            _ => row,
        }
    }

    /// The x that a horizontal move of a tile at `x` aims for: half a display to the
    /// left, but not past zero, or half a display to the right.
    pub open spec fn proposed_x(self, x: int, direction: Direction) -> int {
        match direction {
            Direction::Left => max_int(x - self.display.width / 2, 0),
            _ => x + self.display.width / 2,
        }
    }

    /// Whether a horizontal move of tile `i` finds a tile in its way: another tile of
    /// its row that the tile would overlap where the move aims.
    pub open spec fn step_blocked(self, i: int, direction: Direction) -> bool {
        first_obstacle(
            self.tiles,
            self.display,
            i,
            self.proposed_x(self.tiles[i].position.x as int, direction),
        ) < self.tiles.len()
    }

    /// The tile that tile `i` changes places with on a horizontal move: its neighbour
    /// in the direction of the move, where a tile is in its way; the number of tiles
    /// where the way is free, or where no tile starts on that side.
    pub open spec fn step_partner(self, i: int, direction: Direction) -> int {
        if self.step_blocked(i, direction) {
            neighbour(self.tiles, i, direction)
        } else {
            self.tiles.len() as int
        }
    }

    /// The x that tile `i` has after a horizontal move. Where the way is free, it is
    /// the x that the move aims for. Where a tile is in the way, the tile changes
    /// places with its neighbour: of the two, the one that comes first after the move
    /// starts where the first of them started, and the other starts where that one
    /// ends. Where a tile is in the way but none starts on that side, the tile stays.
    pub open spec fn x_after_move(self, i: int, direction: Direction) -> int {
        let mover = self.tiles[i];
        let n = self.step_partner(i, direction);
        if !self.step_blocked(i, direction) {
            self.proposed_x(mover.position.x as int, direction)
        } else if n < self.tiles.len() {
            if direction == Direction::Right {
                mover.position.x + self.display.tile_width(self.tiles[n].position.size)
            } else {
                self.tiles[n].position.x as int
            }
        } else {
            mover.position.x as int
        }
    }

    /// The x that the partner of tile `i` has after a horizontal move.
    pub open spec fn partner_x_after_move(self, i: int, direction: Direction) -> int {
        let mover = self.tiles[i];
        let n = self.step_partner(i, direction);
        if direction == Direction::Right {
            mover.position.x as int
        } else {
            self.tiles[n].position.x + self.display.tile_width(mover.position.size)
        }
    }

    /// Whether a move of the window changes the place of a tile.
    pub open spec fn moves(self, id: i64, direction: Direction) -> bool {
        manages(self.tiles, id) && {
            let i = tile_index(self.tiles, id);
            match direction {
                Direction::Up | Direction::Down => Self::row_after_move(
                    self.tiles[i].position.row as int,
                    direction,
                ) != self.tiles[i].position.row,
                _ => self.x_after_move(i, direction) != self.tiles[i].position.x,
            }
        }
    }

    /// The tiles after tile `i` went to the neighbouring row in `direction`: the tiles
    /// of that row that meet its interval move right by its width, and it takes the
    /// row.
    pub open spec fn tiles_after_row_move(self, i: int, direction: Direction) -> Seq<ManagedTile> {
        let mover = self.tiles[i];
        let row = Self::row_after_move(mover.position.row as int, direction) as i32;
        pushed_aside(
            self.tiles,
            self.display,
            row,
            mover.position.x as int,
            self.display.tile_width(mover.position.size),
        ).update(i, ManagedTile { position: RibbonPosition { row, ..mover.position }, ..mover })
    }

    /// The tiles after tile `i` moved within its row: it goes to `x_after_move`, and
    /// the tile it changes places with, if any, to `partner_x_after_move`. No other
    /// tile moves.
    pub open spec fn tiles_after_step(self, i: int, direction: Direction) -> Seq<ManagedTile> {
        let mover = self.tiles[i];
        let n = self.step_partner(i, direction);
        let swapped = if n < self.tiles.len() {
            self.tiles.update(n, self.tiles[n].at_x(self.partner_x_after_move(i, direction)))
        } else {
            self.tiles
        };
        swapped.update(i, mover.at_x(self.x_after_move(i, direction)))
    }

    /// The state with the transition of the window's tile ended.
    pub open spec fn stilled(self, id: i64) -> TilerState {
        if manages(self.tiles, id) {
            let i = tile_index(self.tiles, id);
            TilerState {
                tiles: self.tiles.update(i, ManagedTile { animation: None, ..self.tiles[i] }),
                ..self
            }
        } else {
            self
        }
    }

    /// The state after tile `i` went to the neighbouring row in `direction`, the
    /// viewport following it by one row as far as its limits allow.
    pub open spec fn after_row_move(self, i: int, direction: Direction) -> TilerState {
        let mover = self.tiles[i];
        let row = Self::row_after_move(mover.position.row as int, direction);
        let tiles = self.tiles_after_row_move(i, direction);
        let v = clamp_int(
            self.viewport.vertical_offset + (row - mover.position.row) * self.display.height,
            0,
            max_vertical(tiles, self.display),
        ) as i32;
        TilerState {
            tiles,
            viewport: ViewportState {
                current_row: row as i32,
                vertical_offset: v,
                vertical_offset_target: v,
                ..self.viewport
            },
            ..self
        }.settled()
    }

    /// The state after tile `i` moved within its row, the viewport following it by as
    /// much as far as its limits allow.
    pub open spec fn after_step(self, i: int, direction: Direction) -> TilerState {
        let tiles = self.tiles_after_step(i, direction);
        let c = clamp_int(
            self.viewport.ribbon_offset + (self.x_after_move(i, direction)
                - self.tiles[i].position.x),
            0,
            max_offset(tiles, self.display),
        ) as i32;
        TilerState {
            tiles,
            viewport: ViewportState { ribbon_offset: c, ribbon_offset_target: c, ..self.viewport },
            ..self
        }.settled()
    }

    /// The state after a tile was to be moved. Any transition of the tile ends. Where
    /// the tile changes its place, the viewport moves by as much, as far as its limits
    /// allow, so that the tile stays where it is on screen, and every other tile glides
    /// from where the old viewport had it to where the new one puts it. Nothing changes
    /// where the window is no tile.
    pub open spec fn moved(self, id: i64, direction: Direction, now: u64) -> TilerState {
        if !self.stilled(id).moves(id, direction) {
            self.stilled(id)
        } else {
            let i = tile_index(self.tiles, id);
            let landed = match direction {
                Direction::Up | Direction::Down => self.stilled(id).after_row_move(i, direction),
                _ => self.stilled(id).after_step(i, direction),
            };
            TilerState {
                tiles: glided(landed.tiles, self.projection(), landed.projection(), now, id),
                needs_ribbon_recalc: true,
                animation_running: true,
                ..landed
            }
        }
    }
}

impl RibbonTiler {
    /// Changes the size of the tile that holds tile `i`'s place.
    fn toggle_size(&mut self, i: usize, direction: Direction)
        requires
            old(self).wf(),
            i < old(self).tiles@.len(),
            extent(old(self).tiles@, old(self).display) + old(self).display.width
                - old(self).display.width / 2 <= MAX_EXTENT,
        ensures
            final(self).wf(),
            final(self)@ == old(self)@.toggled(old(self).tiles@[i as int].id, direction),
    {
        let ghost before = self@;
        let tile: ManagedTile = self.tiles[i];
        proof {
            assert(before.tiles[i as int].valid(self.display));
            crate::layout::lemma_tile_index(before.tiles, tile.id);
            lemma_extent(before.tiles, self.display);
            assert(before.tiles[i as int].end(self.display) <= extent(before.tiles, self.display));
        }
        let size: TileSize = match direction {
            Direction::Left | Direction::Right => tile.position.size.toggle(),
            _ => tile.position.size,
        };
        let old_width: i32 = self.display.get_tile_width(tile.position.size);
        let grown: i32 = self.display.get_tile_width(size) - old_width;
        if grown > 0 {
            shift_right(
                &mut self.tiles,
                &self.display,
                tile.position.row,
                tile.position.x + old_width,
                grown,
                tile.id,
            );
        }
        let ghost made_room = self.tiles@;
        let mut resized: ManagedTile = tile;
        resized.position.size = size;
        proof {
            assert(made_room[i as int] == tile);
            lemma_replace_tile(made_room, i as int, resized, self.display);
        }
        self.tiles.set(i, resized);
        self.needs_ribbon_recalc = true;
        self.settle();
    }

    /// Toggles a tile between half and full width. A window that is no tile yet is
    /// added first. Nothing changes where the ribbon has no room for what the resize
    /// may need.
    pub fn resize_window(
        &mut self,
        id: i64,
        direction: Direction,
        probe: Option<WindowProbe>,
        foreground: i64,
        now: u64,
    )
        requires
            old(self).wf(),
        ensures
            final(self).wf(),
            old(self)@.can_resize(id, probe) ==> final(self)@ == old(self)@.resized(
                id,
                direction,
                probe,
                foreground,
                now,
            ),
            !old(self)@.can_resize(id, probe) ==> final(self)@ == old(self)@,
            final(self)@.offsets_in_bounds(),
    {
        proof {
            crate::laws::lemma_offsets_in_bounds(self@);
            if self@.can_resize(id, probe) {
                crate::upkeep::lemma_resize_keeps_offsets_in_bounds(
                    self@,
                    id,
                    direction,
                    probe,
                    foreground,
                    now,
                );
            }
        }
        if !self.has_room() || (self.would_tile(id, probe) && !self.can_add()) {
            return ;
        }
        if find_tile(&self.tiles, id).is_none() {
            let outcome: AddOutcome = self.add_window(id, probe, foreground, now);
            match outcome {
                AddOutcome::Floating | AddOutcome::Tiled => {},
                _ => {
                    return ;
                },
            }
        }
        match find_tile(&self.tiles, id) {
            Some(i) => {
                self.toggle_size(i, direction);
            },
            None => {},
        }
        let _ = self.apply_all_windows(true, now);
    }

    /// Ends the transition of tile `i`.
    fn still(&mut self, i: usize)
        requires
            old(self).wf(),
            i < old(self).tiles@.len(),
        ensures
            final(self).wf(),
            final(self)@ == old(self)@.stilled(old(self).tiles@[i as int].id),
            final(self).tiles@.len() == old(self).tiles@.len(),
            final(self).tiles@[i as int].id == old(self).tiles@[i as int].id,
            extent(final(self).tiles@, final(self).display) == extent(old(self).tiles@, old(self).display),
            tile_index(final(self).tiles@, old(self).tiles@[i as int].id) == i,
            final(self)@.projection() == old(self)@.projection(),
    {
        let ghost before = self@;
        let mut mover: ManagedTile = self.tiles[i];
        proof {
            assert(before.tiles[i as int].valid(self.display));
            crate::layout::lemma_tile_index(before.tiles, mover.id);
        }
        mover.animation = None;
        self.tiles.set(i, mover);
        proof {
            lemma_replace_tile(before.tiles, i as int, mover, self.display);
            lemma_positions_limits(before.tiles, self.tiles@, self.display);
            crate::layout::lemma_same_windows(self.tiles@, before.tiles, mover.id);
        }
    }

    /// Takes tile `i` to the row above or below, if there is one.
    fn change_row(&mut self, i: usize, direction: Direction) -> (moved: bool)
        requires
            old(self).wf(),
            i < old(self).tiles@.len(),
            has_room(old(self).tiles@, old(self).display),
            direction == Direction::Up || direction == Direction::Down,
        ensures
            final(self).wf(),
            moved == (TilerState::row_after_move(old(self).tiles@[i as int].position.row as int, direction)
                != old(self).tiles@[i as int].position.row),
            moved ==> final(self)@ == old(self)@.after_row_move(i as int, direction),
            !moved ==> final(self)@ == old(self)@,
    {
        let ghost before = self@;
        let mover: ManagedTile = self.tiles[i];
        proof {
            assert(before.tiles[i as int].valid(self.display));
            lemma_extent(before.tiles, self.display);
            lemma_limits(before.tiles, self.display);
        }
        let width: i32 = self.display.get_tile_width(mover.position.size);
        let row: i32 = match direction {
            Direction::Up => if mover.position.row > 0 {
                mover.position.row - 1
            } else {
                mover.position.row
            },
            _ => if mover.position.row < MAX_ROW {
                mover.position.row + 1
            } else {
                mover.position.row
            },
        };
        if row == mover.position.row {
            return false;
        }
        push_aside(&mut self.tiles, &self.display, row, mover.position.x, width);
        let ghost pushed = self.tiles@;
        let mut risen: ManagedTile = mover;
        risen.position.row = row;
        proof {
            assert(pushed[i as int] == mover);
            lemma_replace_tile(pushed, i as int, risen, self.display);
            lemma_row_origin_bounds(1, self.display.height as int);
        }
        self.tiles.set(i, risen);
        let limit: i32 = vertical_limit(&self.tiles, &self.display);
        let by: i64 = if row > mover.position.row {
            self.display.height as i64
        } else {
            -(self.display.height as i64)
        };
        proof {
            assert((row - mover.position.row) * self.display.height == by) by (nonlinear_arith)
                requires
                    row - mover.position.row == 1 && by == self.display.height || row
                        - mover.position.row == -1 && by == -self.display.height,
            ;
        }
        let v: i32 = clamp_i64(self.viewport.vertical_offset as i64 + by, 0, limit as i64) as i32;
        self.viewport.current_row = row;
        self.viewport.vertical_offset = v;
        self.viewport.vertical_offset_target = v;
        self.settle();
        true
    }

    /// Takes tile `i` half a display to the left or right, or lets it change places
    /// with its neighbour where a tile is in its way.
    #[verifier::rlimit(30)]
    fn step_aside(&mut self, i: usize, direction: Direction) -> (moved: bool)
        requires
            old(self).wf(),
            i < old(self).tiles@.len(),
            has_room(old(self).tiles@, old(self).display),
            direction == Direction::Left || direction == Direction::Right,
        ensures
            final(self).wf(),
            moved == (old(self)@.x_after_move(i as int, direction) != old(self).tiles@[i as int].position.x),
            moved ==> final(self)@ == old(self)@.after_step(i as int, direction),
            !moved ==> final(self)@ == old(self)@,
    {
        let ghost before = self@;
        let mover: ManagedTile = self.tiles[i];
        proof {
            assert(before.tiles[i as int].valid(self.display));
            lemma_extent(before.tiles, self.display);
            lemma_limits(before.tiles, self.display);
            assert(before.tiles[i as int].end(self.display) <= extent(before.tiles, self.display));
        }
        let step: i32 = self.display.width / 2;
        let width: i32 = self.display.get_tile_width(mover.position.size);
        let old_x: i32 = mover.position.x;
        let proposed: i32 = match direction {
            Direction::Left => if old_x - step > 0 {
                old_x - step
            } else {
                0
            },
            _ => old_x + step,
        };
        let blocked: bool = find_obstacle(&self.tiles, &self.display, i, proposed) < self.tiles.len();
        let n: usize = if blocked {
            find_neighbour(&self.tiles, &self.display, i, direction)
        } else {
            self.tiles.len()
        };
        proof {
            if n < self.tiles.len() {
                assert(before.tiles[n as int].valid(self.display));
                assert(before.tiles[n as int].end(self.display) <= extent(before.tiles, self.display));
            }
        }
        let to_right: bool = match direction {
            Direction::Right => true,
            _ => false,
        };
        let new_x: i32 = if !blocked {
            proposed
        } else if n < self.tiles.len() {
            if to_right {
                old_x + self.display.get_tile_width(self.tiles[n].position.size)
            } else {
                self.tiles[n].position.x
            }
        } else {
            old_x
        };
        if new_x == old_x {
            return false;
        }
        if n < self.tiles.len() {
            let mut other: ManagedTile = self.tiles[n];
            other.position.x = if to_right {
                old_x
            } else {
                other.position.x + width
            };
            proof {
                lemma_replace_tile(before.tiles, n as int, other, self.display);
            }
            self.tiles.set(n, other);
        }
        let ghost swapped = self.tiles@;
        let mut stepped: ManagedTile = mover;
        stepped.position.x = new_x;
        proof {
            assert(swapped[i as int] == mover);
            lemma_replace_tile(swapped, i as int, stepped, self.display);
        }
        self.tiles.set(i, stepped);
        let limit: i32 = horizontal_limit(&self.tiles, &self.display);
        let c: i32 = clamp_i64(
            self.viewport.ribbon_offset as i64 + (new_x as i64 - old_x as i64),
            0,
            limit as i64,
        ) as i32;
        self.viewport.ribbon_offset = c;
        self.viewport.ribbon_offset_target = c;
        self.settle();
        true
    }

    /// Moves a tile by half a display within its row, or lets it change places with its
    /// neighbour where a tile is in its way; or moves it to the row above or below,
    /// making room there. Says whether the tile changed its place. A move within the
    /// row never makes tiles overlap, and changes the x of the tile and of that one
    /// neighbour at most. A move to another row makes no tiles overlap where the tile
    /// finds room there. Nothing changes where the ribbon cannot take one more display
    /// width.
    pub fn move_window(&mut self, id: i64, direction: Direction, now: u64) -> (moved: bool)
        requires
            old(self).wf(),
        ensures
            final(self).wf(),
            has_room(old(self).tiles@, old(self).display) ==> final(self)@ == old(self)@.moved(
                id,
                direction,
                now,
            ) && moved == old(self)@.stilled(id).moves(id, direction),
            !has_room(old(self).tiles@, old(self).display) ==> final(self)@ == old(self)@ && !moved,
            final(self)@.offsets_in_bounds(),
            old(self)@.rows_apart() && (direction == Direction::Left || direction == Direction::Right
                || !manages(old(self).tiles@, id) || old(self)@.stilled(id).moves_cleanly(
                id,
                direction,
            )) ==> final(self)@.rows_apart(),
            (direction == Direction::Left || direction == Direction::Right) && manages(
                old(self).tiles@,
                id,
            ) && has_room(old(self).tiles@, old(self).display) ==> old(self)@.differs_in_two(
                final(self)@,
                tile_index(old(self).tiles@, id),
                old(self)@.stilled(id).step_partner(tile_index(old(self).tiles@, id), direction),
            ),
    {
        proof {
            crate::laws::lemma_offsets_in_bounds(self@);
        }
        if !self.has_room() {
            return false;
        }
        proof {
            crate::upkeep::lemma_moved_consistent(self@, id, direction, now);
            crate::laws::lemma_offsets_in_bounds(self@.moved(id, direction, now));
            if direction == Direction::Left || direction == Direction::Right {
                crate::disjoint::lemma_step_keeps_rows_apart(self@, id, direction, now);
            } else if self@.rows_apart() && self@.stilled(id).moves_cleanly(id, direction) {
                crate::disjoint::lemma_clean_move_keeps_rows_apart(self@, id, direction, now);
            }
        }
        let i: usize = match find_tile(&self.tiles, id) {
            Some(i) => i,
            None => {
                return false;
            },
        };
        let from: Projection = self.projection();
        self.still(i);
        let moved: bool = match direction {
            Direction::Up | Direction::Down => self.change_row(i, direction),
            _ => self.step_aside(i, direction),
        };
        if !moved {
            return false;
        }
        let to: Projection = self.projection();
        let ghost landed = self.tiles@;
        animate_universe_movement(&mut self.tiles, &from, &to, now, id);
        self.needs_ribbon_recalc = true;
        self.animation_running = true;
        proof {
            lemma_positions_limits(landed, self.tiles@, self.display);
        }
        true
    }
}

} // verus!
