//! Changes to the places of several tiles at once, and the searches among tiles that
//! adding and moving a tile rely on.

use vstd::prelude::*;
use crate::geometry::{Direction, Display, MAX_EXTENT};
use crate::layout::{distinct_ids, extent, lemma_extent, same_windows, tiles_valid, ManagedTile};
use crate::scan::{first_least, first_where, lemma_first_where_found, lemma_first_where_none};

verus! {

/// The ribbon can take one more display width beyond its extent.
pub open spec fn has_room(tiles: Seq<ManagedTile>, display: Display) -> bool {
    extent(tiles, display) + display.width <= MAX_EXTENT
}

/// An upper bound of every tile's end is an upper bound of the extent.
pub proof fn lemma_extent_at_most(tiles: Seq<ManagedTile>, display: Display, bound: int)
    requires
        0 <= bound,
        forall|i: int| 0 <= i < tiles.len() ==> (#[trigger] tiles[i]).end(display) <= bound,
    ensures
        extent(tiles, display) <= bound,
{
    lemma_extent(tiles, display);
}

/// The tiles whose ids are not among `gone`, in their order.
pub open spec fn without(tiles: Seq<ManagedTile>, gone: Seq<i64>) -> Seq<ManagedTile> {
    tiles.filter(|t: ManagedTile| !gone.contains(t.id))
}

/// Whether `id` is among `ids`.
pub fn contains_id(ids: &Vec<i64>, id: i64) -> (b: bool)
    ensures
        b == ids@.contains(id),
{
    let mut i: usize = 0;
    while i < ids.len()
        invariant
            i <= ids.len(),
            forall|k: int| 0 <= k < i ==> ids[k] != id,
        decreases ids.len() - i,
    {
        if ids[i] == id {
            return true;
        }
        i += 1;
    }
    false
}

/// Drops the tiles whose ids are among `gone`. Says whether any was dropped.
pub fn remove_tiles(tiles: &mut Vec<ManagedTile>, gone: &Vec<i64>, display: &Display) -> (removed: bool)
    requires
        tiles_valid(old(tiles)@, *display),
    ensures
        final(tiles)@ == without(old(tiles)@, gone@),
        removed == (final(tiles)@.len() != old(tiles)@.len()),
        tiles_valid(final(tiles)@, *display),
{
    let ghost before = tiles@;
    let ghost keep = |t: ManagedTile| !gone@.contains(t.id);
    let mut kept: Vec<ManagedTile> = Vec::new();
    let mut i: usize = 0;
    while i < tiles.len()
        invariant
            i <= tiles.len(),
            tiles@ == before,
            tiles_valid(before, *display),
            keep == |t: ManagedTile| !gone@.contains(t.id),
            kept@ == before.take(i as int).filter(keep),
            kept.len() <= i,
            forall|k: int|
                0 <= k < kept.len() ==> exists|j: int| 0 <= j < i && before[j] == #[trigger] kept[k],
            distinct_ids(kept@),
        decreases tiles.len() - i,
    {
        let tile: ManagedTile = tiles[i];
        proof {
            assert(before.take(i + 1) == before.take(i as int).push(before[i as int]));
            before.take(i as int).lemma_filter_push(before[i as int], keep);
        }
        if !contains_id(gone, tile.id) {
            proof {
                assert forall|k: int| 0 <= k < kept.len() implies (#[trigger] kept[k]).id
                    != tile.id by {
                    let j = choose|j: int| 0 <= j < i && before[j] == kept[k];
                    assert(before[j].id != before[i as int].id);
                }
            }
            kept.push(tile);
            proof {
                assert forall|k: int| 0 <= k < kept.len() implies exists|j: int|
                    0 <= j < i + 1 && before[j] == #[trigger] kept[k] by {
                    if k == kept.len() - 1 {
                        assert(before[i as int] == kept[k]);
                    } else {
                        let j = choose|j: int| 0 <= j < i && before[j] == kept@.drop_last()[k];
                        assert(before[j] == kept[k]);
                    }
                }
            }
        } else {
            proof {
                assert forall|k: int| 0 <= k < kept.len() implies exists|j: int|
                    0 <= j < i + 1 && before[j] == #[trigger] kept[k] by {
                    let j = choose|j: int| 0 <= j < i && before[j] == kept[k];
                    assert(before[j] == kept[k]);
                }
            }
        }
        i += 1;
    }
    proof {
        assert(before.take(before.len() as int) == before);
        assert forall|k: int| 0 <= k < kept.len() implies (#[trigger] kept[k]).valid(*display) by {
            let j = choose|j: int| 0 <= j < before.len() && before[j] == kept[k];
            assert(before[j].valid(*display));
        }
    }
    let removed: bool = kept.len() != tiles.len();
    *tiles = kept;
    removed
}

/// Every tile of `row` at or right of `from_x`, but for the tile `except`, moved right
/// by `by`.
pub open spec fn shifted(tiles: Seq<ManagedTile>, row: i32, from_x: int, by: int, except: i64) -> Seq<
    ManagedTile,
> {
    Seq::new(
        tiles.len(),
        |i: int|
            if tiles[i].id != except && tiles[i].position.row == row && tiles[i].position.x
                >= from_x {
                tiles[i].at_x(tiles[i].position.x + by)
            } else {
                tiles[i]
            },
    )
}

/// Moves every tile of `row` at or right of `from_x`, but for the tile `except`, right
/// by `by`.
pub fn shift_right(
    tiles: &mut Vec<ManagedTile>,
    display: &Display,
    row: i32,
    from_x: i32,
    by: i32,
    except: i64,
)
    requires
        display.valid(),
        tiles_valid(old(tiles)@, *display),
        0 <= by,
        extent(old(tiles)@, *display) + by <= MAX_EXTENT,
    ensures
        final(tiles)@ == shifted(old(tiles)@, row, from_x as int, by as int, except),
        tiles_valid(final(tiles)@, *display),
        same_windows(final(tiles)@, old(tiles)@),
        extent(final(tiles)@, *display) <= extent(old(tiles)@, *display) + by,
{
    let ghost before = tiles@;
    let n: usize = tiles.len();
    proof {
        lemma_extent(before, *display);
    }
    let mut i: usize = 0;
    while i < n
        invariant
            i <= n,
            n == tiles.len(),
            n == before.len(),
            display.valid(),
            tiles_valid(before, *display),
            0 <= by,
            extent(before, *display) + by <= MAX_EXTENT,
            forall|k: int| 0 <= k < before.len() ==> (#[trigger] before[k]).end(*display) <= extent(before, *display),
            forall|k: int|
                0 <= k < i ==> #[trigger] tiles[k] == shifted(before, row, from_x as int, by as int, except)[k],
            forall|k: int| i <= k < n ==> #[trigger] tiles[k] == before[k],
        decreases n - i,
    {
        let mut tile: ManagedTile = tiles[i];
        proof {
            assert(before[i as int].valid(*display));
            assert(before[i as int].end(*display) <= extent(before, *display));
        }
        if tile.id != except && tile.position.row == row && tile.position.x >= from_x {
            tile.position.x = tile.position.x + by;
            tiles.set(i, tile);
        }
        i += 1;
    }
    proof {
        let after = shifted(before, row, from_x as int, by as int, except);
        assert(tiles@ =~= after);
        lemma_moved_right(before, after, *display, by as int);
    }
}

/// Tiles that differ from valid ones only in x, each moved right by at most `by`, are
/// valid where there was room, and reach at most `by` further.
pub proof fn lemma_moved_right(
    before: Seq<ManagedTile>,
    after: Seq<ManagedTile>,
    display: Display,
    by: int,
)
    requires
        display.valid(),
        tiles_valid(before, display),
        0 <= by,
        extent(before, display) + by <= MAX_EXTENT,
        after.len() == before.len(),
        forall|k: int|
            0 <= k < before.len() ==> #[trigger] after[k] == before[k] || after[k] == before[k].at_x(
                before[k].position.x + by,
            ),
    ensures
        tiles_valid(after, display),
        extent(after, display) <= extent(before, display) + by,
        same_windows(after, before),
{
    lemma_extent(before, display);
    assert forall|k: int| 0 <= k < after.len() implies (#[trigger] after[k]).valid(display)
        && after[k].end(display) <= extent(before, display) + by && after[k].id == before[k].id by {
        assert(before[k].valid(display));
        assert(before[k].end(display) <= extent(before, display));
    }
    lemma_extent_at_most(after, display, extent(before, display) + by);
    assert(distinct_ids(after)) by {
        assert forall|i: int, j: int|
            0 <= i < after.len() && 0 <= j < after.len() && i != j implies after[i].id
            != after[j].id by {
            assert(after[i].id == before[i].id);
            assert(after[j].id == before[j].id);
        }
    }
}

/// Every tile of `row` that meets `[x, x + width)` moved right by `width`.
pub open spec fn pushed_aside(tiles: Seq<ManagedTile>, display: Display, row: i32, x: int, width: int) -> Seq<
    ManagedTile,
> {
    Seq::new(
        tiles.len(),
        |i: int|
            if tiles[i].position.row == row && tiles[i].overlaps(display, x, width) {
                tiles[i].at_x(tiles[i].position.x + width)
            } else {
                tiles[i]
            },
    )
}

/// Moves every tile of `row` that meets `[x, x + width)` right by `width`.
pub fn push_aside(tiles: &mut Vec<ManagedTile>, display: &Display, row: i32, x: i32, width: i32)
    requires
        display.valid(),
        tiles_valid(old(tiles)@, *display),
        0 <= x <= MAX_EXTENT,
        0 <= width,
        extent(old(tiles)@, *display) + width <= MAX_EXTENT,
    ensures
        final(tiles)@ == pushed_aside(old(tiles)@, *display, row, x as int, width as int),
        tiles_valid(final(tiles)@, *display),
        same_windows(final(tiles)@, old(tiles)@),
        extent(final(tiles)@, *display) <= extent(old(tiles)@, *display) + width,
{
    let ghost before = tiles@;
    let n: usize = tiles.len();
    proof {
        lemma_extent(before, *display);
    }
    let mut i: usize = 0;
    while i < n
        invariant
            i <= n,
            n == tiles.len(),
            n == before.len(),
            display.valid(),
            tiles_valid(before, *display),
            0 <= x <= MAX_EXTENT,
            0 <= width,
            extent(before, *display) + width <= MAX_EXTENT,
            forall|k: int| 0 <= k < before.len() ==> (#[trigger] before[k]).end(*display) <= extent(before, *display),
            forall|k: int|
                0 <= k < i ==> #[trigger] tiles[k] == pushed_aside(before, *display, row, x as int, width as int)[k],
            forall|k: int| i <= k < n ==> #[trigger] tiles[k] == before[k],
        decreases n - i,
    {
        let mut tile: ManagedTile = tiles[i];
        proof {
            assert(before[i as int].valid(*display));
            assert(before[i as int].end(*display) <= extent(before, *display));
        }
        let end: i32 = tile.position.x + display.get_tile_width(tile.position.size);
        if tile.position.row == row && !(x + width <= tile.position.x || x >= end) {
            tile.position.x = tile.position.x + width;
            tiles.set(i, tile);
        }
        i += 1;
    }
    proof {
        let after = pushed_aside(before, *display, row, x as int, width as int);
        assert(tiles@ =~= after);
        lemma_moved_right(before, after, *display, width as int);
    }
}

/// Tile `k` stands in the way of tile `mover` placed at `x`: another tile of the same
/// row whose interval meets the mover's.
pub open spec fn in_the_way(tiles: Seq<ManagedTile>, display: Display, mover: int, x: int) -> spec_fn(
    int,
) -> bool {
    |k: int|
        k != mover && tiles[k].position.row == tiles[mover].position.row && tiles[k].overlaps(
            display,
            x,
            display.tile_width(tiles[mover].position.size),
        )
}

/// The first tile in the way of `mover` placed at `x`; the number of tiles if none is.
pub open spec fn first_obstacle(tiles: Seq<ManagedTile>, display: Display, mover: int, x: int) -> int {
    first_where(tiles.len() as int, in_the_way(tiles, display, mover, x))
}

/// The first tile in the way of tile `mover` placed at `x`; the number of tiles if none
/// is.
pub fn find_obstacle(tiles: &Vec<ManagedTile>, display: &Display, mover: usize, x: i32) -> (k: usize)
    requires
        display.valid(),
        tiles_valid(tiles@, *display),
        mover < tiles.len(),
        0 <= x <= MAX_EXTENT,
    ensures
        k == first_obstacle(tiles@, *display, mover as int, x as int),
        k <= tiles.len(),
        k != mover,
{
    let ghost blocked = in_the_way(tiles@, *display, mover as int, x as int);
    let row: i32 = tiles[mover].position.row;
    let width: i32 = display.get_tile_width(tiles[mover].position.size);
    let mut k: usize = 0;
    while k < tiles.len()
        invariant
            k <= tiles.len(),
            mover < tiles.len(),
            display.valid(),
            tiles_valid(tiles@, *display),
            0 <= x <= MAX_EXTENT,
            row == tiles[mover as int].position.row,
            width == display.tile_width(tiles[mover as int].position.size),
            blocked == in_the_way(tiles@, *display, mover as int, x as int),
            forall|j: int| 0 <= j < k ==> !#[trigger] blocked(j),
        decreases tiles.len() - k,
    {
        proof {
            assert(tiles@[k as int].valid(*display));
        }
        let other_x: i32 = tiles[k].position.x;
        let other_end: i32 = other_x + display.get_tile_width(tiles[k].position.size);
        if k != mover && tiles[k].position.row == row && x < other_end && x + width > other_x {
            proof {
                assert(blocked(k as int));
                lemma_first_where_found(tiles.len() as int, blocked, k as int);
            }
            return k;
        }
        k += 1;
    }
    proof {
        lemma_first_where_none(tiles.len() as int, blocked);
    }
    k
}

/// The distance of `v` from zero.
pub open spec fn abs_int(v: int) -> int {
    if v < 0 {
        -v
    } else {
        v
    }
}

/// The x of edge `e`, the edges numbered tile by tile, left before right.
pub open spec fn edge_x(tiles: Seq<ManagedTile>, display: Display, e: int) -> int {
    if e % 2 == 0 {
        tiles[e / 2].position.x as int
    } else {
        tiles[e / 2].end(display)
    }
}

/// The distance of edge `e` from `center`, for the edges of tiles in `row`.
pub open spec fn edge_distance(tiles: Seq<ManagedTile>, display: Display, row: i32, center: int) -> spec_fn(
    int,
) -> Option<int> {
    |e: int|
        if tiles[e / 2].position.row == row {
            Some(abs_int(edge_x(tiles, display, e) - center))
        } else {
            None
        }
}

/// The edge nearest to `center` among the edges of the tiles in `row`, the earliest
/// such edge where several are as near; `fallback` where the row is empty.
pub open spec fn nearest_edge(
    tiles: Seq<ManagedTile>,
    display: Display,
    row: i32,
    center: int,
    fallback: int,
) -> int {
    match first_least(2 * (tiles.len() as int), edge_distance(tiles, display, row, center)) {
        Some(e) => edge_x(tiles, display, e),
        None => fallback,
    }
}

/// The tile edge of `row` nearest to `center`; `fallback` where the row is empty.
pub fn find_nearest_edge(
    tiles: &Vec<ManagedTile>,
    display: &Display,
    row: i32,
    center: i32,
    fallback: i32,
) -> (x: i32)
    requires
        display.valid(),
        tiles_valid(tiles@, *display),
        0 <= fallback <= MAX_EXTENT,
        0 <= center <= MAX_EXTENT,
    ensures
        x == nearest_edge(tiles@, *display, row, center as int, fallback as int),
        0 <= x <= MAX_EXTENT,
        x == fallback || exists|i: int|
            0 <= i < tiles.len() && (#[trigger] tiles[i]).position.row == row && (x
                == tiles[i].position.x || x == tiles[i].end(*display)),
{
    let ghost key = edge_distance(tiles@, *display, row, center as int);
    let mut best: Option<usize> = None;
    let mut best_x: i32 = fallback;
    let mut best_distance: i32 = 0;
    let mut i: usize = 0;
    while i < tiles.len()
        invariant
            i <= tiles.len(),
            display.valid(),
            tiles_valid(tiles@, *display),
            0 <= fallback <= MAX_EXTENT,
            0 <= center <= MAX_EXTENT,
            key == edge_distance(tiles@, *display, row, center as int),
            match best {
                Some(e) => first_least(2 * i, key) == Some(e as int) && e < 2 * i && key(e as int)
                    == Some(best_distance as int) && best_x == edge_x(tiles@, *display, e as int)
                    && tiles[e as int / 2].position.row == row,
                None => first_least(2 * i, key).is_none() && best_x == fallback,
            },
            0 <= best_x <= MAX_EXTENT,
        decreases tiles.len() - i,
    {
        proof {
            assert(tiles@[i as int].valid(*display));
            reveal_with_fuel(first_least, 3);
            assert((2 * i) / 2 == i && (2 * i) % 2 == 0);
            assert((2 * i + 1) / 2 == i && (2 * i + 1) % 2 == 1);
            assert(first_least(2 * i + 2, key) == first_least((2 * i + 1) + 1, key));
        }
        if tiles[i].position.row == row {
            let left: i32 = tiles[i].position.x;
            let right: i32 = left + display.get_tile_width(tiles[i].position.size);
            let left_distance: i32 = if left >= center {
                left - center
            } else {
                center - left
            };
            let right_distance: i32 = if right >= center {
                right - center
            } else {
                center - right
            };
            let improves: bool = match best {
                Some(_) => left_distance < best_distance,
                None => true,
            };
            if improves {
                best = Some(2 * i);
                best_x = left;
                best_distance = left_distance;
            }
            if right_distance < best_distance {
                best = Some(2 * i + 1);
                best_x = right;
                best_distance = right_distance;
            }
        }
        i += 1;
    }
    proof {
        if best.is_some() {
            let e = best.unwrap() as int;
            assert(tiles[e / 2].position.row == row);
            assert(tiles@[e / 2].valid(*display));
        }
    }
    best_x
}

/// How far tile `k` starts from tile `of`, for the other tiles of that tile's row that
/// start on the side that `direction` names: at or right of it for a move to the right,
/// left of it for any other move.
pub open spec fn neighbour_distance(tiles: Seq<ManagedTile>, of: int, direction: Direction) -> spec_fn(
    int,
) -> Option<int> {
    |k: int|
        if k != of && tiles[k].position.row == tiles[of].position.row {
            if direction == Direction::Right {
                if tiles[k].position.x >= tiles[of].position.x {
                    Some(tiles[k].position.x - tiles[of].position.x)
                } else {
                    None
                }
            } else {
                if tiles[k].position.x < tiles[of].position.x {
                    Some(tiles[of].position.x - tiles[k].position.x)
                } else {
                    None
                }
            }
        } else {
            None
        }
}

/// The neighbour of tile `of` in `direction`: of the other tiles of its row that start
/// on that side, the one that starts nearest, the earliest such tile where several
/// start as near; the number of tiles where no tile starts on that side.
pub open spec fn neighbour(tiles: Seq<ManagedTile>, of: int, direction: Direction) -> int {
    match first_least(tiles.len() as int, neighbour_distance(tiles, of, direction)) {
        Some(k) => k,
        None => tiles.len() as int,
    }
}

/// Finds the neighbour of tile `of` in `direction`.
pub fn find_neighbour(tiles: &Vec<ManagedTile>, display: &Display, of: usize, direction: Direction) -> (k:
    usize)
    requires
        display.valid(),
        tiles_valid(tiles@, *display),
        of < tiles.len(),
    ensures
        k == neighbour(tiles@, of as int, direction),
        k <= tiles.len(),
        k != of,
        k < tiles.len() ==> tiles[k as int].position.row == tiles[of as int].position.row,
{
    let ghost key = neighbour_distance(tiles@, of as int, direction);
    let row: i32 = tiles[of].position.row;
    let here: i32 = tiles[of].position.x;
    let to_right: bool = match direction {
        Direction::Right => true,
        _ => false,
    };
    let mut best: usize = tiles.len();
    let mut best_distance: i32 = 0;
    let mut i: usize = 0;
    while i < tiles.len()
        invariant
            i <= tiles.len(),
            of < tiles.len(),
            display.valid(),
            tiles_valid(tiles@, *display),
            row == tiles[of as int].position.row,
            here == tiles[of as int].position.x,
            to_right == (direction == Direction::Right),
            key == neighbour_distance(tiles@, of as int, direction),
            best <= tiles.len(),
            best < tiles.len() ==> first_least(i as int, key) == Some(best as int) && best < i
                && key(best as int) == Some(best_distance as int),
            best == tiles.len() ==> first_least(i as int, key).is_none(),
        decreases tiles.len() - i,
    {
        proof {
            assert(tiles@[i as int].valid(*display));
            assert(tiles@[of as int].valid(*display));
        }
        let x: i32 = tiles[i].position.x;
        if i != of && tiles[i].position.row == row && ((to_right && x >= here) || (!to_right && x
            < here)) {
            let distance: i32 = if to_right {
                x - here
            } else {
                here - x
            };
            if best == tiles.len() || distance < best_distance {
                best = i;
                best_distance = distance;
            }
        }
        i += 1;
    }
    best
}

} // verus!
