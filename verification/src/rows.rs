//! Questions about single rows: which rows hold tiles, and where a row ends.

use vstd::prelude::*;
use crate::geometry::{Display, RibbonPosition, TileSize, MAX_EXTENT, MAX_ROW};
use crate::layout::{extent, tiles_valid, ManagedTile};
use crate::model::TilerState;
use crate::tiler::RibbonTiler;

verus! {

/// Some tile is in `row`.
pub open spec fn row_occupied(tiles: Seq<ManagedTile>, row: i32) -> bool {
    exists|i: int| 0 <= i < tiles.len() && (#[trigger] tiles[i]).position.row == row
}

/// The rows are in ascending order, each once.
pub open spec fn ascending(rows: Seq<i32>) -> bool {
    forall|i: int, j: int| 0 <= i < j < rows.len() ==> rows[i] < rows[j]
}

/// The tiles that are in `row`, in their order.
pub open spec fn tiles_of_row(tiles: Seq<ManagedTile>, row: i32) -> Seq<ManagedTile> {
    tiles.filter(|t: ManagedTile| t.position.row == row)
}

/// Where the rightmost tile of `row` ends; zero where the row is empty.
pub open spec fn row_extent(tiles: Seq<ManagedTile>, display: Display, row: i32) -> int {
    extent(tiles_of_row(tiles, row), display)
}

/// The rows that hold tiles, in ascending order, each once.
pub fn get_active_rows(tiles: &Vec<ManagedTile>) -> (rows: Vec<i32>)
    ensures
        ascending(rows@),
        forall|row: i32| rows@.contains(row) <==> row_occupied(tiles@, row),
{
    let mut rows: Vec<i32> = Vec::new();
    let mut i: usize = 0;
    while i < tiles.len()
        invariant
            i <= tiles.len(),
            ascending(rows@),
            forall|row: i32| rows@.contains(row) <==> row_occupied(tiles@.take(i as int), row),
        decreases tiles.len() - i,
    {
        let row: i32 = tiles[i].position.row;
        let ghost before = rows@;
        let mut p: usize = 0;
        while p < rows.len() && rows[p] < row
            invariant
                p <= rows.len(),
                rows@ == before,
                forall|k: int| 0 <= k < p ==> rows[k] < row,
            decreases rows.len() - p,
        {
            p += 1;
        }
        let present: bool = p < rows.len() && rows[p] == row;
        if !present {
            rows.insert(p, row);
        }
        proof {
            let seen = tiles@.take(i as int);
            let seen_next = tiles@.take(i + 1);
            assert(seen_next[i as int].position.row == row);
            assert forall|r: i32| rows@.contains(r) <==> row_occupied(seen_next, r) by {
                if rows@.contains(r) {
                    if r != row {
                        let k = choose|k: int| 0 <= k < rows@.len() && rows@[k] == r;
                        if present {
                            assert(before.contains(r));
                        } else if k < p {
                            assert(before[k] == r);
                            assert(before.contains(r));
                        } else {
                            assert(before[k - 1] == r);
                            assert(before.contains(r));
                        }
                        assert(row_occupied(seen, r));
                        let t = choose|t: int| 0 <= t < seen.len() && (#[trigger] seen[t]).position.row == r;
                        assert(seen_next[t].position.row == r);
                    }
                }
                if row_occupied(seen_next, r) {
                    let t = choose|t: int|
                        0 <= t < seen_next.len() && (#[trigger] seen_next[t]).position.row == r;
                    if t < i {
                        assert(seen[t].position.row == r);
                        assert(before.contains(r));
                        let k = choose|k: int| 0 <= k < before.len() && before[k] == r;
                        if present {
                            assert(rows@[k] == r);
                        } else if k < p {
                            assert(rows@[k] == r);
                        } else {
                            assert(rows@[k + 1] == r);
                        }
                    } else {
                        assert(r == row);
                        assert(rows@[p as int] == row);
                    }
                }
            }
        }
        i += 1;
    }
    proof {
        assert(tiles@.take(tiles.len() as int) == tiles@);
    }
    rows
}

/// Where the rightmost tile of `row` ends.
pub fn end_of_row(tiles: &Vec<ManagedTile>, display: &Display, row: i32) -> (end: i32)
    requires
        display.valid(),
        tiles_valid(tiles@, *display),
    ensures
        end == row_extent(tiles@, *display, row),
        0 <= end <= MAX_EXTENT,
{
    let ghost in_row = |t: ManagedTile| t.position.row == row;
    let mut end: i32 = 0;
    let mut i: usize = 0;
    while i < tiles.len()
        invariant
            i <= tiles.len(),
            display.valid(),
            tiles_valid(tiles@, *display),
            in_row == |t: ManagedTile| t.position.row == row,
            end == extent(tiles@.take(i as int).filter(in_row), *display),
            0 <= end <= MAX_EXTENT,
        decreases tiles.len() - i,
    {
        proof {
            assert(tiles@.take(i + 1) == tiles@.take(i as int).push(tiles@[i as int]));
            tiles@.take(i as int).lemma_filter_push(tiles@[i as int], in_row);
            assert(tiles@[i as int].valid(*display));
            let kept = tiles@.take(i as int).filter(in_row);
            assert(kept.push(tiles@[i as int]).drop_last() == kept);
        }
        if tiles[i].position.row == row {
            let tile_end: i32 = tiles[i].position.x + display.get_tile_width(tiles[i].position.size);
            if tile_end > end {
                end = tile_end;
            }
        }
        i += 1;
    }
    proof {
        assert(tiles@.take(tiles.len() as int) == tiles@);
    }
    end
}

impl TilerState {
    /// The place past the last tile of the row in view: at the end of that row, and at
    /// the viewport's left edge where there is no tile at all. A tile there is half a
    /// display wide.
    pub open spec fn next_free_position(self) -> RibbonPosition {
        RibbonPosition {
            x: if self.tiles.len() == 0 {
                self.viewport.ribbon_offset
            } else {
                row_extent(self.tiles, self.display, self.viewport.current_row) as i32
            },
            row: self.viewport.current_row,
            size: TileSize::Half,
        }
    }
}

impl RibbonTiler {
    /// The place past the last tile of the row in view.
    pub fn find_next_free_position(&self) -> (pos: RibbonPosition)
        requires
            self.wf(),
        ensures
            pos == self@.next_free_position(),
            0 <= pos.x <= MAX_EXTENT,
            0 <= pos.row <= MAX_ROW + 1,
    {
        proof {
            crate::layout::lemma_limits(self.tiles@, self.display);
        }
        let x: i32 = if self.tiles.len() == 0 {
            self.viewport.ribbon_offset
        } else {
            end_of_row(&self.tiles, &self.display, self.viewport.current_row)
        };
        RibbonPosition { x, row: self.viewport.current_row, size: TileSize::Half }
    }

    /// The rows that hold tiles, in ascending order.
    pub fn active_rows(&self) -> (rows: Vec<i32>)
        ensures
            ascending(rows@),
            forall|row: i32| rows@.contains(row) <==> row_occupied(self.tiles@, row),
    {
        get_active_rows(&self.tiles)
    }
}

} // verus!
