//! Defragmentation: every row's tiles, in their order from left to right, are laid end
//! to end from x = 0. Rows do not affect one another.

use vstd::prelude::*;
use crate::geometry::{Display, MAX_DIMENSION, MAX_EXTENT};
use crate::layout::{distinct_ids, same_positions, same_windows, tiles_sound, tiles_valid, ManagedTile,
    MAX_TILES};

verus! {

/// Tile `j` stands before tile `i` in the order of `i`'s row: further left, or at the
/// same x and earlier among the tiles.
pub open spec fn precedes(tiles: Seq<ManagedTile>, j: int, i: int) -> bool {
    &&& tiles[j].position.row == tiles[i].position.row
    &&& (tiles[j].position.x < tiles[i].position.x || (tiles[j].position.x == tiles[i].position.x
        && j < i))
}

/// The total width of those among the first `n` tiles that stand before tile `i`.
pub open spec fn width_ahead(tiles: Seq<ManagedTile>, display: Display, i: int, n: int) -> int
    decreases n,
{
    if n <= 0 {
        0
    } else {
        width_ahead(tiles, display, i, n - 1) + if precedes(tiles, n - 1, i) {
            display.tile_width(tiles[n - 1].position.size)
        } else {
            0
        }
    }
}

/// Where packing puts tile `i`: after everything that stands before it in its row.
pub open spec fn packed_x(tiles: Seq<ManagedTile>, display: Display, i: int) -> int {
    width_ahead(tiles, display, i, tiles.len() as int)
}

/// The tiles after packing: each keeps everything but its x.
pub open spec fn packed(tiles: Seq<ManagedTile>, display: Display) -> Seq<ManagedTile> {
    Seq::new(tiles.len(), |i: int| tiles[i].at_x(packed_x(tiles, display, i)))
}

/// No two tiles of a row overlap.
#[verifier::opaque]
pub open spec fn rows_disjoint(tiles: Seq<ManagedTile>, display: Display) -> bool {
    forall|i: int, j: int|
        0 <= i < tiles.len() && 0 <= j < tiles.len() && i != j && tiles[i].position.row
            == tiles[j].position.row ==> #[trigger] tiles[i].end(display) <= tiles[j].position.x
            || #[trigger] tiles[j].end(display) <= tiles[i].position.x
}

/// Every tile starts at x = 0 or exactly where another tile of its row ends.
#[verifier::opaque]
pub open spec fn rows_gapless(tiles: Seq<ManagedTile>, display: Display) -> bool {
    forall|i: int|
        0 <= i < tiles.len() ==> (#[trigger] tiles[i]).position.x == 0 || exists|j: int|
            0 <= j < tiles.len() && j != i && tiles[j].position.row == tiles[i].position.row
                && #[trigger] tiles[j].end(display) == tiles[i].position.x
}

/// Every row is filled from x = 0 without gap and without overlap.
pub open spec fn is_packed(tiles: Seq<ManagedTile>, display: Display) -> bool {
    rows_disjoint(tiles, display) && rows_gapless(tiles, display)
}

proof fn lemma_width_ahead_bound(tiles: Seq<ManagedTile>, display: Display, i: int, n: int)
    requires
        display.valid(),
        0 <= n <= tiles.len(),
        0 <= i < tiles.len(),
    ensures
        0 <= width_ahead(tiles, display, i, n),
        width_ahead(tiles, display, i, n) + (if i < n {
            MAX_DIMENSION as int
        } else {
            0
        }) <= n * MAX_DIMENSION,
    decreases n,
{
    if n > 0 {
        lemma_width_ahead_bound(tiles, display, i, n - 1);
    }
}

/// A tile that stands before another ends, after packing, no later than the other
/// starts.
proof fn lemma_width_ahead_ordered(tiles: Seq<ManagedTile>, display: Display, a: int, b: int, n: int)
    requires
        display.valid(),
        0 <= n <= tiles.len(),
        0 <= a < tiles.len(),
        0 <= b < tiles.len(),
        precedes(tiles, a, b),
    ensures
        width_ahead(tiles, display, a, n) + (if a < n {
            display.tile_width(tiles[a].position.size)
        } else {
            0
        }) <= width_ahead(tiles, display, b, n),
    decreases n,
{
    if n > 0 {
        lemma_width_ahead_ordered(tiles, display, a, b, n - 1);
    }
}

proof fn lemma_width_ahead_none(tiles: Seq<ManagedTile>, display: Display, i: int, n: int)
    requires
        0 <= n <= tiles.len(),
        forall|k: int| 0 <= k < n ==> !precedes(tiles, k, i),
    ensures
        width_ahead(tiles, display, i, n) == 0,
    decreases n,
{
    if n > 0 {
        lemma_width_ahead_none(tiles, display, i, n - 1);
    }
}

/// Among the first `n` tiles, the last one that stands before tile `i`.
proof fn last_before(tiles: Seq<ManagedTile>, i: int, n: int) -> (p: int)
    requires
        0 <= n <= tiles.len(),
        0 <= i < tiles.len(),
        exists|k: int| 0 <= k < n && precedes(tiles, k, i),
    ensures
        0 <= p < n,
        precedes(tiles, p, i),
        forall|k: int| 0 <= k < n && precedes(tiles, k, i) ==> k == p || precedes(tiles, k, p),
    decreases n,
{
    let k0 = n - 1;
    if exists|k: int| 0 <= k < n - 1 && precedes(tiles, k, i) {
        let q = last_before(tiles, i, n - 1);
        if precedes(tiles, k0, i) && precedes(tiles, q, k0) {
            k0
        } else {
            q
        }
    } else {
        k0
    }
}

/// Past its immediate predecessor `p`, tile `i` has nothing else ahead of it.
proof fn lemma_width_ahead_step(tiles: Seq<ManagedTile>, display: Display, i: int, p: int, n: int)
    requires
        0 <= n <= tiles.len(),
        0 <= i < tiles.len(),
        0 <= p < tiles.len(),
        precedes(tiles, p, i),
        forall|k: int|
            0 <= k < tiles.len() && precedes(tiles, k, i) ==> k == p || precedes(tiles, k, p),
    ensures
        width_ahead(tiles, display, i, n) == width_ahead(tiles, display, p, n) + (if p < n {
            display.tile_width(tiles[p].position.size)
        } else {
            0
        }),
    decreases n,
{
    if n > 0 {
        lemma_width_ahead_step(tiles, display, i, p, n - 1);
    }
}

/// Two tile lists with the same order in every row and the same sizes have the same
/// widths ahead of every tile.
proof fn lemma_width_ahead_same(
    s: Seq<ManagedTile>,
    t: Seq<ManagedTile>,
    display: Display,
    i: int,
    n: int,
)
    requires
        s.len() == t.len(),
        0 <= n <= s.len(),
        0 <= i < s.len(),
        forall|k: int| 0 <= k < s.len() ==> precedes(s, k, i) == precedes(t, k, i),
        forall|k: int| 0 <= k < s.len() ==> (#[trigger] s[k]).position.size == t[k].position.size,
    ensures
        width_ahead(s, display, i, n) == width_ahead(t, display, i, n),
    decreases n,
{
    if n > 0 {
        lemma_width_ahead_same(s, t, display, i, n - 1);
    }
}

/// Packing keeps every tile on the ribbon.
pub proof fn lemma_packed_fits(tiles: Seq<ManagedTile>, display: Display, i: int)
    requires
        display.valid(),
        tiles.len() <= MAX_TILES,
        0 <= i < tiles.len(),
    ensures
        0 <= packed_x(tiles, display, i),
        packed_x(tiles, display, i) + display.tile_width(tiles[i].position.size) <= MAX_EXTENT,
        packed(tiles, display)[i].position.x == packed_x(tiles, display, i),
        packed(tiles, display)[i].position.row == tiles[i].position.row,
        packed(tiles, display)[i].position.size == tiles[i].position.size,
        packed(tiles, display)[i].end(display) == packed_x(tiles, display, i) + display.tile_width(
            tiles[i].position.size,
        ),
{
    lemma_width_ahead_bound(tiles, display, i, tiles.len() as int);
    assert(tiles.len() * MAX_DIMENSION <= MAX_TILES * MAX_DIMENSION) by (nonlinear_arith)
        requires
            tiles.len() <= MAX_TILES,
    ;
}

/// Packing keeps the order of every row: a tile that stood before another ends where
/// the other starts, or further left.
pub proof fn lemma_pack_keeps_order(tiles: Seq<ManagedTile>, display: Display, a: int, b: int)
    requires
        display.valid(),
        tiles.len() <= MAX_TILES,
        0 <= a < tiles.len(),
        0 <= b < tiles.len(),
        precedes(tiles, a, b),
    ensures
        packed(tiles, display)[a].end(display) <= packed(tiles, display)[b].position.x,
        packed(tiles, display)[a].position.x < packed(tiles, display)[b].position.x,
{
    lemma_packed_fits(tiles, display, a);
    lemma_packed_fits(tiles, display, b);
    lemma_width_ahead_ordered(tiles, display, a, b, tiles.len() as int);
}

/// After packing, the tiles of every row lie end to end from x = 0: none overlaps
/// another, and each starts at zero or where another one ends.
pub proof fn lemma_pack_packs(tiles: Seq<ManagedTile>, display: Display)
    requires
        display.valid(),
        tiles.len() <= MAX_TILES,
    ensures
        is_packed(packed(tiles, display), display),
{
    reveal(rows_disjoint);
    reveal(rows_gapless);
    let after = packed(tiles, display);
    assert forall|i: int, j: int|
        0 <= i < after.len() && 0 <= j < after.len() && i != j && after[i].position.row
            == after[j].position.row implies #[trigger] after[i].end(display) <= after[j].position.x
        || #[trigger] after[j].end(display) <= after[i].position.x by {
        lemma_packed_fits(tiles, display, i);
        lemma_packed_fits(tiles, display, j);
        if precedes(tiles, i, j) {
            lemma_pack_keeps_order(tiles, display, i, j);
        } else {
            assert(precedes(tiles, j, i));
            lemma_pack_keeps_order(tiles, display, j, i);
        }
    }
    assert forall|i: int| 0 <= i < after.len() implies (#[trigger] after[i]).position.x == 0
        || exists|j: int|
        0 <= j < after.len() && j != i && after[j].position.row == after[i].position.row
            && #[trigger] after[j].end(display) == after[i].position.x by {
        lemma_packed_fits(tiles, display, i);
        if exists|k: int| 0 <= k < tiles.len() && precedes(tiles, k, i) {
            let p = last_before(tiles, i, tiles.len() as int);
            lemma_width_ahead_step(tiles, display, i, p, tiles.len() as int);
            lemma_packed_fits(tiles, display, p);
            assert(after[p].end(display) == after[i].position.x);
        } else {
            lemma_width_ahead_none(tiles, display, i, tiles.len() as int);
        }
    }
}

/// Packing what is packed already changes nothing.
pub proof fn lemma_pack_idempotent(tiles: Seq<ManagedTile>, display: Display)
    requires
        display.valid(),
        tiles.len() <= MAX_TILES,
    ensures
        packed(packed(tiles, display), display) == packed(tiles, display),
{
    let once = packed(tiles, display);
    let twice = packed(once, display);
    assert forall|i: int| 0 <= i < once.len() implies twice[i] == once[i] by {
        lemma_packed_fits(tiles, display, i);
        assert forall|k: int| 0 <= k < once.len() implies precedes(once, k, i) == precedes(
            tiles,
            k,
            i,
        ) by {
            lemma_packed_fits(tiles, display, k);
            if precedes(tiles, k, i) {
                lemma_pack_keeps_order(tiles, display, k, i);
            } else if k != i && tiles[k].position.row == tiles[i].position.row {
                assert(precedes(tiles, i, k));
                lemma_pack_keeps_order(tiles, display, i, k);
            }
        }
        assert forall|k: int| 0 <= k < once.len() implies (#[trigger] once[k]).position.size
            == tiles[k].position.size by {
            lemma_packed_fits(tiles, display, k);
        }
        lemma_width_ahead_same(once, tiles, display, i, tiles.len() as int);
    }
    assert(twice =~= once);
}

/// Packing puts sound tiles on the ribbon, and the same windows stay managed.
pub proof fn lemma_pack_valid(tiles: Seq<ManagedTile>, display: Display)
    requires
        display.valid(),
        tiles_sound(tiles),
    ensures
        tiles_valid(packed(tiles, display), display),
        same_windows(packed(tiles, display), tiles),
{
    let after = packed(tiles, display);
    assert forall|i: int| 0 <= i < after.len() implies (#[trigger] after[i]).valid(display) by {
        lemma_packed_fits(tiles, display, i);
        assert(tiles[i].sound());
    }
    assert(distinct_ids(after)) by {
        assert forall|i: int, j: int|
            0 <= i < after.len() && 0 <= j < after.len() && i != j implies after[i].id
            != after[j].id by {
            assert(after[i].id == tiles[i].id);
            assert(after[j].id == tiles[j].id);
        }
    }
}

/// Without tiles, every row is packed.
pub proof fn lemma_nothing_is_packed(tiles: Seq<ManagedTile>, display: Display)
    requires
        tiles.len() == 0,
    ensures
        is_packed(tiles, display),
{
    reveal(rows_disjoint);
    reveal(rows_gapless);
}

/// Where packing puts a tile is a matter of the tiles' places alone.
pub proof fn lemma_packing_by_position(
    s: Seq<ManagedTile>,
    t: Seq<ManagedTile>,
    display: Display,
    i: int,
)
    requires
        same_positions(s, t),
        0 <= i < s.len(),
    ensures
        packed_x(s, display, i) == packed_x(t, display, i),
{
    assert forall|k: int| 0 <= k < s.len() implies precedes(s, k, i) == precedes(t, k, i) by {
        assert(s[k].position == t[k].position);
        assert(s[i].position == t[i].position);
    }
    assert forall|k: int| 0 <= k < s.len() implies (#[trigger] s[k]).position.size
        == t[k].position.size by {
        assert(s[k].position == t[k].position);
    }
    lemma_width_ahead_same(s, t, display, i, s.len() as int);
}

/// Tiles that stand where packing puts them are packed, whatever else was done to
/// them.
pub proof fn lemma_packed_places(tiles: Seq<ManagedTile>, after: Seq<ManagedTile>, display: Display)
    requires
        display.valid(),
        tiles.len() <= MAX_TILES,
        same_positions(after, packed(tiles, display)),
    ensures
        is_packed(after, display),
{
    let carried = Seq::new(
        tiles.len(),
        |i: int| ManagedTile { position: tiles[i].position, ..after[i] },
    );
    assert(same_positions(carried, tiles));
    assert forall|i: int| 0 <= i < after.len() implies after[i] == #[trigger] packed(
        carried,
        display,
    )[i] by {
        lemma_packing_by_position(carried, tiles, display, i);
        lemma_packed_fits(tiles, display, i);
        assert(after[i].position == packed(tiles, display)[i].position);
    }
    assert(after =~= packed(carried, display));
    lemma_pack_packs(carried, display);
}

/// Where tile `i` goes when its row is packed.
fn packed_position(tiles: &Vec<ManagedTile>, display: &Display, i: usize) -> (x: i32)
    requires
        display.valid(),
        tiles.len() <= MAX_TILES,
        i < tiles.len(),
    ensures
        x == packed_x(tiles@, *display, i as int),
{
    let row: i32 = tiles[i].position.row;
    let here: i32 = tiles[i].position.x;
    let mut x: i32 = 0;
    let mut j: usize = 0;
    while j < tiles.len()
        invariant
            j <= tiles.len(),
            tiles.len() <= MAX_TILES,
            i < tiles.len(),
            display.valid(),
            row == tiles[i as int].position.row,
            here == tiles[i as int].position.x,
            x == width_ahead(tiles@, *display, i as int, j as int),
            0 <= x <= j * MAX_DIMENSION,
        decreases tiles.len() - j,
    {
        let other_x: i32 = tiles[j].position.x;
        if tiles[j].position.row == row && (other_x < here || (other_x == here && j < i)) {
            x = x + display.get_tile_width(tiles[j].position.size);
        }
        j += 1;
    }
    x
}

/// Packs every row: each tile moves to the sum of the widths of the tiles that stand
/// before it in its row.
pub fn pack(tiles: &mut Vec<ManagedTile>, display: &Display)
    requires
        display.valid(),
        tiles_sound(old(tiles)@),
    ensures
        final(tiles)@ == packed(old(tiles)@, *display),
        tiles_valid(final(tiles)@, *display),
        is_packed(final(tiles)@, *display),
        same_windows(final(tiles)@, old(tiles)@),
{
    let ghost before = tiles@;
    let n: usize = tiles.len();
    let mut places: Vec<i32> = Vec::new();
    let mut i: usize = 0;
    while i < n
        invariant
            i <= n,
            n == tiles.len(),
            tiles@ == before,
            display.valid(),
            tiles_sound(before),
            places.len() == i,
            forall|k: int| 0 <= k < i ==> #[trigger] places[k] == packed_x(before, *display, k),
        decreases n - i,
    {
        let x: i32 = packed_position(tiles, display, i);
        places.push(x);
        i += 1;
    }
    let mut k: usize = 0;
    while k < n
        invariant
            k <= n,
            n == tiles.len(),
            n == before.len(),
            places.len() == n,
            forall|m: int| 0 <= m < n ==> #[trigger] places[m] == packed_x(before, *display, m),
            forall|m: int| 0 <= m < k ==> #[trigger] tiles[m] == before[m].at_x(places[m] as int),
            forall|m: int| k <= m < n ==> #[trigger] tiles[m] == before[m],
        decreases n - k,
    {
        let mut tile: ManagedTile = tiles[k];
        tile.position.x = places[k];
        tiles.set(k, tile);
        k += 1;
    }
    proof {
        assert(tiles@ == packed(before, *display)) by {
            assert(tiles@ =~= packed(before, *display));
        }
        lemma_pack_valid(before, *display);
        lemma_pack_packs(before, *display);
    }
}

} // verus!
