//! The layout model: the managed tiles, their places in the ribbon, and the packing that
//! closes the gaps in every row.

use vstd::prelude::*;
use crate::animation::AnimationState;
use crate::geometry::{max_int, Display, Rect, RibbonPosition, MAX_EXTENT, MAX_ROW};
use crate::scan::{first_where, lemma_first_where};

verus! {

/// Most tiles that can be managed at once.
pub const MAX_TILES: usize = 32_768;

/// What a window looked like before it was managed, kept to put it back.
#[derive(Clone, Copy, Debug, PartialEq, Eq, Structural)]
pub struct SavedWindow {
    pub style: u32,
    pub ex_style: u32,
    pub rect: Rect,
}

/// One managed window.
#[derive(Clone, Copy, Debug, PartialEq, Eq)]
pub struct ManagedTile {
    /// The window's identity; no two tiles share one.
    pub id: i64,
    pub saved: SavedWindow,
    pub position: RibbonPosition,
    /// The transition the tile is in, if any.
    pub animation: Option<AnimationState>,
    /// The rectangle last issued for the window.
    pub shown: Rect,
}

impl ManagedTile {
    /// Where the tile's interval in the ribbon ends.
    pub open spec fn end(self, display: Display) -> int {
        self.position.x + display.tile_width(self.position.size)
    }

    /// What holds of a tile whatever the display is: its row exists, and the
    /// rectangles it carries are within bounds.
    pub open spec fn sound(self) -> bool {
        &&& 0 <= self.position.row <= MAX_ROW
        &&& self.shown.bounded()
        &&& match self.animation {
            Some(a) => a.valid(),
            None => true,
        }
    }

    /// The tile is sound and lies on the ribbon.
    pub open spec fn valid(self, display: Display) -> bool {
        &&& self.sound()
        &&& 0 <= self.position.x
        &&& self.end(display) <= MAX_EXTENT
    }

    /// The same tile at another x.
    pub open spec fn at_x(self, x: int) -> ManagedTile {
        ManagedTile { position: RibbonPosition { x: x as i32, ..self.position }, ..self }
    }

    /// Whether the tile's interval meets `[x, x + width)`.
    pub open spec fn overlaps(self, display: Display, x: int, width: int) -> bool {
        !(x + width <= self.position.x || x >= self.end(display))
    }
}

/// No two tiles share an id.
pub open spec fn distinct_ids(tiles: Seq<ManagedTile>) -> bool {
    forall|i: int, j: int|
        0 <= i < tiles.len() && 0 <= j < tiles.len() && i != j ==> tiles[i].id != tiles[j].id
}

/// No more than `MAX_TILES` tiles, each with its own id, each sound.
pub open spec fn tiles_sound(tiles: Seq<ManagedTile>) -> bool {
    &&& tiles.len() <= MAX_TILES
    &&& distinct_ids(tiles)
    &&& forall|i: int| 0 <= i < tiles.len() ==> (#[trigger] tiles[i]).sound()
}

/// No more than `MAX_TILES` tiles, each with its own id, each on the ribbon.
pub open spec fn tiles_valid(tiles: Seq<ManagedTile>, display: Display) -> bool {
    &&& tiles.len() <= MAX_TILES
    &&& distinct_ids(tiles)
    &&& forall|i: int| 0 <= i < tiles.len() ==> (#[trigger] tiles[i]).valid(display)
}

/// Where the tile with the given id stands among the tiles; the number of tiles where
/// no tile has the id.
pub open spec fn tile_index(tiles: Seq<ManagedTile>, id: i64) -> int {
    first_where(tiles.len() as int, |i: int| tiles[i].id == id)
}

/// The tile with the given id stands at `tile_index`, and nowhere else.
pub proof fn lemma_tile_index(tiles: Seq<ManagedTile>, id: i64)
    ensures
        0 <= tile_index(tiles, id) <= tiles.len(),
        manages(tiles, id) <==> tile_index(tiles, id) < tiles.len(),
        tile_index(tiles, id) < tiles.len() ==> tiles[tile_index(tiles, id)].id == id,
        distinct_ids(tiles) ==> forall|i: int|
            0 <= i < tiles.len() && (#[trigger] tiles[i]).id == id ==> i == tile_index(tiles, id),
{
    let hit = |i: int| tiles[i].id == id;
    lemma_first_where(tiles.len() as int, hit);
    if manages(tiles, id) {
        let k = choose|k: int| 0 <= k < tiles.len() && (#[trigger] tiles[k]).id == id;
        assert(hit(k));
    }
    if tile_index(tiles, id) < tiles.len() {
        assert(hit(tile_index(tiles, id)));
    }
}

/// The two lists hold tiles at the same places, one for one.
pub open spec fn same_positions(a: Seq<ManagedTile>, b: Seq<ManagedTile>) -> bool {
    &&& a.len() == b.len()
    &&& forall|i: int| 0 <= i < a.len() ==> (#[trigger] a[i]).position == b[i].position
}

/// Tiles at the same places reach as far and as high.
pub proof fn lemma_positions_limits(a: Seq<ManagedTile>, b: Seq<ManagedTile>, display: Display)
    requires
        same_positions(a, b),
    ensures
        extent(a, display) == extent(b, display),
        top_row(a) == top_row(b),
        max_offset(a, display) == max_offset(b, display),
        max_vertical(a, display) == max_vertical(b, display),
    decreases a.len(),
{
    if a.len() > 0 {
        assert(a[a.len() - 1].position == b[a.len() - 1].position);
        assert forall|i: int| 0 <= i < a.len() - 1 implies (#[trigger] a.drop_last()[i]).position
            == b.drop_last()[i].position by {
            assert(a[i].position == b[i].position);
        }
        lemma_positions_limits(a.drop_last(), b.drop_last(), display);
    }
}

/// The two lists hold the same windows in the same order.
pub open spec fn same_windows(a: Seq<ManagedTile>, b: Seq<ManagedTile>) -> bool {
    &&& a.len() == b.len()
    &&& forall|i: int| 0 <= i < a.len() ==> (#[trigger] a[i]).id == b[i].id
}

/// Lists of the same windows manage the same ids, and find them at the same places.
pub proof fn lemma_same_windows(a: Seq<ManagedTile>, b: Seq<ManagedTile>, id: i64)
    requires
        same_windows(a, b),
    ensures
        manages(a, id) == manages(b, id),
        tile_index(a, id) == tile_index(b, id),
{
    if manages(a, id) {
        let k = choose|k: int| 0 <= k < a.len() && (#[trigger] a[k]).id == id;
        assert(b[k].id == id);
    }
    if manages(b, id) {
        let k = choose|k: int| 0 <= k < b.len() && (#[trigger] b[k]).id == id;
        assert(a[k].id == id);
    }
    let in_a = |i: int| a[i].id == id;
    let in_b = |i: int| b[i].id == id;
    lemma_first_where(a.len() as int, in_a);
    lemma_first_where(b.len() as int, in_b);
    let i = tile_index(a, id);
    let j = tile_index(b, id);
    if i < j {
        assert(in_a(i));
        assert(a[i].id == b[i].id);
        assert(in_b(i));
    } else if j < i {
        assert(in_b(j));
        assert(a[j].id == b[j].id);
        assert(in_a(j));
    }
}

/// Some tile has this id.
pub open spec fn manages(tiles: Seq<ManagedTile>, id: i64) -> bool {
    exists|i: int| 0 <= i < tiles.len() && (#[trigger] tiles[i]).id == id
}

/// The end of the rightmost tile of any row; zero without tiles.
pub open spec fn extent(tiles: Seq<ManagedTile>, display: Display) -> int
    decreases tiles.len(),
{
    if tiles.len() == 0 {
        0
    } else {
        max_int(extent(tiles.drop_last(), display), tiles.last().end(display))
    }
}

/// The highest row that holds a tile; zero without tiles.
pub open spec fn top_row(tiles: Seq<ManagedTile>) -> int
    decreases tiles.len(),
{
    if tiles.len() == 0 {
        0
    } else {
        max_int(top_row(tiles.drop_last()), tiles.last().position.row as int)
    }
}

/// How far the viewport can scroll to the right.
pub open spec fn max_offset(tiles: Seq<ManagedTile>, display: Display) -> int {
    max_int(0, extent(tiles, display) - display.width)
}

/// How far the viewport can scroll down: to the one empty row above the highest row
/// that holds a tile.
pub open spec fn max_vertical(tiles: Seq<ManagedTile>, display: Display) -> int {
    (top_row(tiles) + 1) * display.height
}

/// The extent is an upper bound of every tile's end, and some tile ends there unless
/// the extent is zero.
pub proof fn lemma_extent(tiles: Seq<ManagedTile>, display: Display)
    ensures
        0 <= extent(tiles, display),
        forall|i: int| 0 <= i < tiles.len() ==> (#[trigger] tiles[i]).end(display) <= extent(tiles, display),
        extent(tiles, display) == 0 || exists|i: int|
            0 <= i < tiles.len() && (#[trigger] tiles[i]).end(display) == extent(tiles, display),
    decreases tiles.len(),
{
    if tiles.len() > 0 {
        let rest = tiles.drop_last();
        lemma_extent(rest, display);
        assert forall|i: int| 0 <= i < tiles.len() implies (#[trigger] tiles[i]).end(display)
            <= extent(tiles, display) by {
            if i < tiles.len() - 1 {
                assert(rest[i] == tiles[i]);
            }
        }
        if extent(tiles, display) != 0 {
            if extent(tiles, display) == tiles.last().end(display) {
                assert(tiles[tiles.len() - 1].end(display) == extent(tiles, display));
            } else {
                let i = choose|i: int|
                    0 <= i < rest.len() && (#[trigger] rest[i]).end(display) == extent(rest, display);
                assert(tiles[i] == rest[i]);
            }
        }
    }
}

/// The top row is an upper bound of every tile's row, and some tile is there unless it
/// is zero.
pub proof fn lemma_top_row(tiles: Seq<ManagedTile>)
    ensures
        0 <= top_row(tiles),
        forall|i: int| 0 <= i < tiles.len() ==> (#[trigger] tiles[i]).position.row <= top_row(tiles),
        top_row(tiles) == 0 || exists|i: int|
            0 <= i < tiles.len() && (#[trigger] tiles[i]).position.row == top_row(tiles),
    decreases tiles.len(),
{
    if tiles.len() > 0 {
        let rest = tiles.drop_last();
        lemma_top_row(rest);
        assert forall|i: int| 0 <= i < tiles.len() implies (#[trigger] tiles[i]).position.row
            <= top_row(tiles) by {
            if i < tiles.len() - 1 {
                assert(rest[i] == tiles[i]);
            }
        }
        if top_row(tiles) != 0 {
            if top_row(tiles) == tiles.last().position.row {
                assert(tiles[tiles.len() - 1].position.row == top_row(tiles));
            } else {
                let i = choose|i: int|
                    0 <= i < rest.len() && (#[trigger] rest[i]).position.row == top_row(rest);
                assert(tiles[i] == rest[i]);
            }
        }
    }
}

/// With valid tiles, the scroll limits fit the ribbon.
pub proof fn lemma_limits(tiles: Seq<ManagedTile>, display: Display)
    requires
        tiles_valid(tiles, display),
        display.valid(),
    ensures
        0 <= extent(tiles, display) <= MAX_EXTENT,
        0 <= max_offset(tiles, display) <= MAX_EXTENT,
        0 <= top_row(tiles) <= MAX_ROW,
        0 <= max_vertical(tiles, display) < MAX_EXTENT,
{
    lemma_extent(tiles, display);
    lemma_top_row(tiles);
    crate::geometry::lemma_row_origin_bounds(top_row(tiles) + 1, display.height as int);
}

/// The index of the tile with the given id.
pub fn find_tile(tiles: &Vec<ManagedTile>, id: i64) -> (found: Option<usize>)
    ensures
        match found {
            Some(i) => i < tiles.len() && tiles[i as int].id == id && manages(tiles@, id) && i
                == tile_index(tiles@, id),
            None => !manages(tiles@, id) && tile_index(tiles@, id) == tiles.len(),
        },
{
    let ghost hit = |i: int| tiles@[i].id == id;
    let mut i: usize = 0;
    while i < tiles.len()
        invariant
            i <= tiles.len(),
            hit == |i: int| tiles@[i].id == id,
            forall|k: int| 0 <= k < i ==> !#[trigger] hit(k),
        decreases tiles.len() - i,
    {
        if tiles[i].id == id {
            proof {
                assert(hit(i as int));
                crate::scan::lemma_first_where_found(tiles.len() as int, hit, i as int);
            }
            return Some(i);
        }
        i += 1;
    }
    proof {
        crate::scan::lemma_first_where_none(tiles.len() as int, hit);
        assert forall|k: int| 0 <= k < tiles.len() implies (#[trigger] tiles[k]).id != id by {
            assert(!hit(k));
        }
    }
    None
}

/// The end of the rightmost tile.
pub fn total_extent(tiles: &Vec<ManagedTile>, display: &Display) -> (e: i32)
    requires
        display.valid(),
        tiles_valid(tiles@, *display),
    ensures
        e == extent(tiles@, *display),
        0 <= e <= MAX_EXTENT,
{
    let mut e: i32 = 0;
    let mut i: usize = 0;
    while i < tiles.len()
        invariant
            i <= tiles.len(),
            display.valid(),
            tiles_valid(tiles@, *display),
            e == extent(tiles@.take(i as int), *display),
            0 <= e <= MAX_EXTENT,
        decreases tiles.len() - i,
    {
        proof {
            assert(tiles@.take(i + 1).drop_last() == tiles@.take(i as int));
            assert(tiles@[i as int].valid(*display));
        }
        let end: i32 = tiles[i].position.x + display.get_tile_width(tiles[i].position.size);
        if end > e {
            e = end;
        }
        i += 1;
    }
    proof {
        assert(tiles@.take(tiles.len() as int) == tiles@);
    }
    e
}

/// The highest occupied row.
pub fn highest_row(tiles: &Vec<ManagedTile>, display: &Display) -> (r: i32)
    requires
        tiles_valid(tiles@, *display),
    ensures
        r == top_row(tiles@),
        0 <= r <= MAX_ROW,
{
    let mut r: i32 = 0;
    let mut i: usize = 0;
    while i < tiles.len()
        invariant
            i <= tiles.len(),
            tiles_valid(tiles@, *display),
            r == top_row(tiles@.take(i as int)),
            0 <= r <= MAX_ROW,
        decreases tiles.len() - i,
    {
        proof {
            assert(tiles@.take(i + 1).drop_last() == tiles@.take(i as int));
            assert(tiles@[i as int].valid(*display));
        }
        if tiles[i].position.row > r {
            r = tiles[i].position.row;
        }
        i += 1;
    }
    proof {
        assert(tiles@.take(tiles.len() as int) == tiles@);
    }
    r
}

/// The greatest horizontal offset.
pub fn horizontal_limit(tiles: &Vec<ManagedTile>, display: &Display) -> (m: i32)
    requires
        display.valid(),
        tiles_valid(tiles@, *display),
    ensures
        m == max_offset(tiles@, *display),
        0 <= m <= MAX_EXTENT,
{
    let e: i32 = total_extent(tiles, display);
    if e - display.width > 0 {
        e - display.width
    } else {
        0
    }
}

/// The greatest vertical offset.
pub fn vertical_limit(tiles: &Vec<ManagedTile>, display: &Display) -> (m: i32)
    requires
        display.valid(),
        tiles_valid(tiles@, *display),
    ensures
        m == max_vertical(tiles@, *display),
        0 <= m < MAX_EXTENT,
{
    let r: i32 = highest_row(tiles, display);
    proof {
        lemma_limits(tiles@, *display);
    }
    (r + 1) * display.height
}

/// Whether any tile, in any row, meets `[x, x + width)`.
pub fn is_x_position_occupied(tiles: &Vec<ManagedTile>, display: &Display, x: i32, width: i32) -> (b: bool)
    requires
        display.valid(),
        tiles_valid(tiles@, *display),
    ensures
        b == exists|i: int| 0 <= i < tiles.len() && (#[trigger] tiles[i]).overlaps(*display, x as int, width as int),
{
    let mut i: usize = 0;
    while i < tiles.len()
        invariant
            i <= tiles.len(),
            display.valid(),
            tiles_valid(tiles@, *display),
            forall|k: int| 0 <= k < i ==> !(#[trigger] tiles[k]).overlaps(*display, x as int, width as int),
        decreases tiles.len() - i,
    {
        proof {
            assert(tiles@[i as int].valid(*display));
        }
        let start: i64 = tiles[i].position.x as i64;
        let end: i64 = start + display.get_tile_width(tiles[i].position.size) as i64;
        if !(x as i64 + width as i64 <= start || x as i64 >= end) {
            return true;
        }
        i += 1;
    }
    false
}

} // verus!
