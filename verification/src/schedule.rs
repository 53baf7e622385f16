//! The animation scheduler's work on the tiles: starting transitions, advancing them at
//! a tick, and choosing the tile that focus follows to.

use vstd::prelude::*;
use crate::animation::{AnimationState, AnimationType, ENTRY_DURATION_MS, EXIT_DURATION_MS,
    GLIDE_DURATION_MS, MOVE_DURATION_MS};
use crate::easing::MAX_DURATION_MS;
use crate::geometry::{div_toward_zero, Display, Projection, Rect};
use crate::layout::{distinct_ids, manages, same_windows, tiles_valid, ManagedTile, SavedWindow};
use crate::scan::first_least;

verus! {

/// A window and the rectangle to give it.
#[derive(Clone, Copy, Debug, PartialEq, Eq, Structural)]
pub struct Placement {
    pub id: i64,
    pub rect: Rect,
}

/// A window that leaves management: what it looked like before, and where to put it.
#[derive(Clone, Copy, Debug, PartialEq, Eq, Structural)]
pub struct Restoration {
    pub id: i64,
    pub saved: SavedWindow,
    pub rect: Rect,
}

/// What a tick asks of the windowing side.
pub struct TickOutput {
    /// Rectangles to commit in one batch.
    pub batch: Vec<Placement>,
    /// Windows whose exit has ended.
    pub restorations: Vec<Restoration>,
}

/// How long a transition of a kind takes when a tile is repositioned on its own.
pub open spec fn duration_of(kind: AnimationType) -> u64 {
    match kind {
        AnimationType::Entry => ENTRY_DURATION_MS,
        AnimationType::Exit => EXIT_DURATION_MS,
        AnimationType::Move => MOVE_DURATION_MS,
    }
}

impl ManagedTile {
    /// The rectangle of the tile at `now`: where its transition has it, or where it was
    /// last put.
    pub open spec fn rect_at(self, now: u64) -> Rect {
        match self.animation {
            Some(a) => a.rect_at(now),
            None => self.shown,
        }
    }

    /// The tile with a new transition toward `target`. The transition starts from where
    /// the one under way has the tile at `now`, and from `rest` where none is under way.
    pub open spec fn animated_from(
        self,
        kind: AnimationType,
        rest: Rect,
        target: Rect,
        now: u64,
        duration: u64,
    ) -> ManagedTile {
        ManagedTile {
            animation: Some(
                AnimationState {
                    start_rect: match self.animation {
                        Some(a) => a.rect_at(now),
                        None => rest,
                    },
                    target_rect: target,
                    start_time: now,
                    duration,
                    animation_type: kind,
                },
            ),
            ..self
        }
    }

    /// The tile on its way to where `projection` puts it. An entry starts from the
    /// target itself, any other transition from where the tile was last put.
    pub open spec fn in_transition(self, kind: AnimationType, projection: Projection, now: u64) -> ManagedTile {
        let target = projection.screen_rect(self.position);
        self.animated_from(
            kind,
            if kind == AnimationType::Entry {
                target
            } else {
                self.shown
            },
            target,
            now,
            duration_of(kind),
        )
    }

    /// The tile put where `projection` has it, at once, if the rectangle is fit for a
    /// reposition of its own.
    pub open spec fn placed(self, projection: Projection) -> ManagedTile {
        match positioning_placement(self, projection) {
            Some(p) => ManagedTile { shown: p.rect, ..self },
            None => self,
        }
    }
}

/// Starts a transition of a tile. One under way is superseded: the new one starts from
/// the rectangle that the old one has reached at `now`.
pub fn start_animation(
    tile: &ManagedTile,
    kind: AnimationType,
    rest: Rect,
    target: Rect,
    now: u64,
    duration: u64,
    display: &Display,
) -> (r: ManagedTile)
    requires
        tile.valid(*display),
        rest.bounded(),
        target.bounded(),
        duration <= MAX_DURATION_MS,
    ensures
        r == tile.animated_from(kind, rest, target, now, duration),
        r.valid(*display),
        r.animation.is_some(),
        tile.animation.is_some() ==> r.animation.unwrap().start_rect == tile.animation.unwrap().rect_at(now),
        r.animation.unwrap().target_rect == target,
{
    let start_rect: Rect = match tile.animation {
        Some(a) => a.sample(now),
        None => rest,
    };
    ManagedTile {
        animation: Some(
            AnimationState { start_rect, target_rect: target, start_time: now, duration, animation_type: kind },
        ),
        ..*tile
    }
}

/// Starts a transition of a tile toward its place on screen.
pub fn apply_with_animation_type(
    tile: &ManagedTile,
    kind: AnimationType,
    projection: &Projection,
    now: u64,
) -> (r: ManagedTile)
    requires
        projection.valid(),
        tile.valid(projection.display),
    ensures
        r == tile.in_transition(kind, *projection, now),
        r.valid(projection.display),
        tile.animation.is_some() ==> r.animation.unwrap().start_rect == tile.animation.unwrap().rect_at(now),
{
    let target: Rect = projection.ribbon_to_screen(&tile.position);
    let rest: Rect = match kind {
        AnimationType::Entry => target,
        _ => tile.shown,
    };
    let duration: u64 = match kind {
        AnimationType::Entry => ENTRY_DURATION_MS,
        AnimationType::Exit => EXIT_DURATION_MS,
        AnimationType::Move => MOVE_DURATION_MS,
    };
    start_animation(tile, kind, rest, target, now, duration, &projection.display)
}

/// Every tile on its way to where `projection` puts it.
pub open spec fn all_in_transition(tiles: Seq<ManagedTile>, projection: Projection, now: u64) -> Seq<
    ManagedTile,
> {
    Seq::new(tiles.len(), |i: int| tiles[i].in_transition(AnimationType::Move, projection, now))
}

/// The tiles of `row` at or right of `from_x`, but for the tile `except`, on their way
/// to where `projection` puts them.
pub open spec fn row_in_transition(
    tiles: Seq<ManagedTile>,
    projection: Projection,
    now: u64,
    row: i32,
    from_x: int,
    except: i64,
) -> Seq<ManagedTile> {
    Seq::new(
        tiles.len(),
        |i: int|
            if tiles[i].id != except && tiles[i].position.row == row && tiles[i].position.x
                >= from_x {
                tiles[i].in_transition(AnimationType::Move, projection, now)
            } else {
                tiles[i]
            },
    )
}

/// Every tile but `except` gliding from where `from` had it to where `to` puts it.
pub open spec fn glided(
    tiles: Seq<ManagedTile>,
    from: Projection,
    to: Projection,
    now: u64,
    except: i64,
) -> Seq<ManagedTile> {
    Seq::new(
        tiles.len(),
        |i: int|
            if tiles[i].id == except {
                tiles[i]
            } else {
                tiles[i].animated_from(
                    AnimationType::Move,
                    from.screen_rect(tiles[i].position),
                    to.screen_rect(tiles[i].position),
                    now,
                    GLIDE_DURATION_MS,
                )
            },
    )
}

/// Every tile put where `projection` has it.
pub open spec fn all_placed(tiles: Seq<ManagedTile>, projection: Projection) -> Seq<ManagedTile> {
    Seq::new(tiles.len(), |i: int| tiles[i].placed(projection))
}

/// The placement that puts a tile where `projection` has it; none where the rectangle
/// has no interior or lies unreasonably far away.
pub open spec fn positioning_placement(t: ManagedTile, projection: Projection) -> Option<Placement> {
    if projection.screen_rect(t.position).within_reach() {
        Some(Placement { id: t.id, rect: projection.screen_rect(t.position) })
    } else {
        None
    }
}

/// `positioning_placement`, as a function of the tile.
pub open spec fn positioning_placements(projection: Projection) -> spec_fn(ManagedTile) -> Option<
    Placement,
> {
    |t: ManagedTile| positioning_placement(t, projection)
}

/// The placements that put every tile where `projection` has it, in the order of the
/// tiles.
pub open spec fn placements_of(tiles: Seq<ManagedTile>, projection: Projection) -> Seq<Placement> {
    tiles.filter_map(positioning_placements(projection))
}

/// Tiles that differ from valid ones in their transitions and shown rectangles only
/// are valid, and the same windows are managed.
pub proof fn lemma_same_places(before: Seq<ManagedTile>, after: Seq<ManagedTile>, display: Display)
    requires
        tiles_valid(before, display),
        after.len() == before.len(),
        forall|k: int|
            0 <= k < before.len() ==> (#[trigger] after[k]).id == before[k].id && after[k].position
                == before[k].position && after[k].shown.bounded() && (match after[k].animation {
                Some(a) => a.valid(),
                None => true,
            }),
    ensures
        tiles_valid(after, display),
        same_windows(after, before),
{
    assert forall|k: int| 0 <= k < after.len() implies (#[trigger] after[k]).valid(display) by {
        assert(before[k].valid(display));
    }
    assert(distinct_ids(after)) by {
        assert forall|i: int, j: int|
            0 <= i < after.len() && 0 <= j < after.len() && i != j implies after[i].id
            != after[j].id by {
            assert(after[i].id == before[i].id);
            assert(after[j].id == before[j].id);
        }
    }
}

/// Starts a move of every tile toward its place on screen.
pub fn animate_all(tiles: &mut Vec<ManagedTile>, projection: &Projection, now: u64)
    requires
        projection.valid(),
        tiles_valid(old(tiles)@, projection.display),
    ensures
        final(tiles)@ == all_in_transition(old(tiles)@, *projection, now),
        tiles_valid(final(tiles)@, projection.display),
        same_windows(final(tiles)@, old(tiles)@),
{
    let ghost before = tiles@;
    let n: usize = tiles.len();
    let mut i: usize = 0;
    while i < n
        invariant
            i <= n,
            n == tiles.len(),
            n == before.len(),
            projection.valid(),
            tiles_valid(before, projection.display),
            forall|k: int|
                0 <= k < i ==> #[trigger] tiles[k] == before[k].in_transition(
                    AnimationType::Move,
                    *projection,
                    now,
                ) && tiles[k].valid(projection.display),
            forall|k: int| i <= k < n ==> #[trigger] tiles[k] == before[k],
        decreases n - i,
    {
        proof {
            assert(before[i as int].valid(projection.display));
        }
        let tile: ManagedTile = apply_with_animation_type(&tiles[i], AnimationType::Move, projection, now);
        tiles.set(i, tile);
        i += 1;
    }
    proof {
        assert(tiles@ =~= all_in_transition(before, *projection, now));
        lemma_same_places(before, tiles@, projection.display);
    }
}

/// Starts a move of the tiles of `row` at or right of `from_x`, but for `except`.
pub fn animate_row(
    tiles: &mut Vec<ManagedTile>,
    projection: &Projection,
    now: u64,
    row: i32,
    from_x: i32,
    except: i64,
)
    requires
        projection.valid(),
        tiles_valid(old(tiles)@, projection.display),
    ensures
        final(tiles)@ == row_in_transition(old(tiles)@, *projection, now, row, from_x as int, except),
        tiles_valid(final(tiles)@, projection.display),
        same_windows(final(tiles)@, old(tiles)@),
{
    let ghost before = tiles@;
    let n: usize = tiles.len();
    let mut i: usize = 0;
    while i < n
        invariant
            i <= n,
            n == tiles.len(),
            n == before.len(),
            projection.valid(),
            tiles_valid(before, projection.display),
            forall|k: int|
                0 <= k < i ==> #[trigger] tiles[k] == row_in_transition(
                    before,
                    *projection,
                    now,
                    row,
                    from_x as int,
                    except,
                )[k] && tiles[k].valid(projection.display),
            forall|k: int| i <= k < n ==> #[trigger] tiles[k] == before[k],
        decreases n - i,
    {
        proof {
            assert(before[i as int].valid(projection.display));
        }
        if tiles[i].id != except && tiles[i].position.row == row && tiles[i].position.x >= from_x {
            let tile: ManagedTile = apply_with_animation_type(
                &tiles[i],
                AnimationType::Move,
                projection,
                now,
            );
            tiles.set(i, tile);
        }
        i += 1;
    }
    proof {
        assert(tiles@ =~= row_in_transition(before, *projection, now, row, from_x as int, except));
        lemma_same_places(before, tiles@, projection.display);
    }
}

/// Lets every tile but `except` glide from where the viewport had it to where the
/// viewport has it now.
pub fn animate_universe_movement(
    tiles: &mut Vec<ManagedTile>,
    from: &Projection,
    to: &Projection,
    now: u64,
    except: i64,
)
    requires
        from.valid(),
        to.valid(),
        from.display == to.display,
        tiles_valid(old(tiles)@, to.display),
    ensures
        final(tiles)@ == glided(old(tiles)@, *from, *to, now, except),
        tiles_valid(final(tiles)@, to.display),
        same_windows(final(tiles)@, old(tiles)@),
{
    let ghost before = tiles@;
    let n: usize = tiles.len();
    let mut i: usize = 0;
    while i < n
        invariant
            i <= n,
            n == tiles.len(),
            n == before.len(),
            from.valid(),
            to.valid(),
            from.display == to.display,
            tiles_valid(before, to.display),
            forall|k: int|
                0 <= k < i ==> #[trigger] tiles[k] == glided(before, *from, *to, now, except)[k]
                    && tiles[k].valid(to.display),
            forall|k: int| i <= k < n ==> #[trigger] tiles[k] == before[k],
        decreases n - i,
    {
        proof {
            assert(before[i as int].valid(to.display));
        }
        if tiles[i].id != except {
            let rest: Rect = from.ribbon_to_screen(&tiles[i].position);
            let target: Rect = to.ribbon_to_screen(&tiles[i].position);
            let tile: ManagedTile = start_animation(
                &tiles[i],
                AnimationType::Move,
                rest,
                target,
                now,
                GLIDE_DURATION_MS,
                &to.display,
            );
            tiles.set(i, tile);
        }
        i += 1;
    }
    proof {
        assert(tiles@ =~= glided(before, *from, *to, now, except));
        lemma_same_places(before, tiles@, to.display);
    }
}

/// Puts every tile where `projection` has it, at once. A rectangle that is not fit for
/// a reposition of its own is not issued.
pub fn place_all(tiles: &mut Vec<ManagedTile>, projection: &Projection) -> (placements: Vec<Placement>)
    requires
        projection.valid(),
        tiles_valid(old(tiles)@, projection.display),
    ensures
        final(tiles)@ == all_placed(old(tiles)@, *projection),
        placements@ == placements_of(old(tiles)@, *projection),
        tiles_valid(final(tiles)@, projection.display),
        same_windows(final(tiles)@, old(tiles)@),
{
    let ghost before = tiles@;
    let ghost pick = positioning_placements(*projection);
    let n: usize = tiles.len();
    let mut placements: Vec<Placement> = Vec::new();
    let mut i: usize = 0;
    while i < n
        invariant
            i <= n,
            n == tiles.len(),
            n == before.len(),
            projection.valid(),
            tiles_valid(before, projection.display),
            pick == positioning_placements(*projection),
            placements@ == before.take(i as int).filter_map(pick),
            forall|k: int|
                0 <= k < i ==> #[trigger] tiles[k] == before[k].placed(*projection)
                    && tiles[k].shown.bounded(),
            forall|k: int| i <= k < n ==> #[trigger] tiles[k] == before[k],
        decreases n - i,
    {
        proof {
            assert(before[i as int].valid(projection.display));
            before.lemma_filter_map_take_succ(pick, i as int);
        }
        let mut tile: ManagedTile = tiles[i];
        let rect: Rect = projection.ribbon_to_screen(&tile.position);
        if rect.is_within_reach() {
            tile.shown = rect;
            tiles.set(i, tile);
            placements.push(Placement { id: tile.id, rect });
        }
        i += 1;
    }
    proof {
        assert(before.take(before.len() as int) == before);
        assert(tiles@ =~= all_placed(before, *projection));
        lemma_same_places(before, tiles@, projection.display);
    }
    placements
}

/// The placement that settles a tile after a recalculation: its place on screen, for a
/// tile at rest in `row` whose rectangle is fit for a reposition of its own.
pub open spec fn settling_placement(t: ManagedTile, projection: Projection, row: i32) -> Option<
    Placement,
> {
    if t.animation.is_none() && t.position.row == row && projection.screen_rect(
        t.position,
    ).within_reach() {
        Some(Placement { id: t.id, rect: projection.screen_rect(t.position) })
    } else {
        None
    }
}

/// `settling_placement`, as a function of the tile.
pub open spec fn settling_placements(projection: Projection, row: i32) -> spec_fn(
    ManagedTile,
) -> Option<Placement> {
    |t: ManagedTile| settling_placement(t, projection, row)
}

/// The tiles after the tiles at rest in `row` were put in place.
pub open spec fn row_settled(tiles: Seq<ManagedTile>, projection: Projection, row: i32) -> Seq<
    ManagedTile,
> {
    Seq::new(
        tiles.len(),
        |i: int|
            match settling_placement(tiles[i], projection, row) {
                Some(p) => ManagedTile { shown: p.rect, ..tiles[i] },
                None => tiles[i],
            },
    )
}

/// Puts the tiles at rest in `row` where `projection` has them.
pub fn settle_row(tiles: &mut Vec<ManagedTile>, projection: &Projection, row: i32) -> (placements: Vec<
    Placement,
>)
    requires
        projection.valid(),
        tiles_valid(old(tiles)@, projection.display),
    ensures
        final(tiles)@ == row_settled(old(tiles)@, *projection, row),
        placements@ == old(tiles)@.filter_map(settling_placements(*projection, row)),
        tiles_valid(final(tiles)@, projection.display),
        same_windows(final(tiles)@, old(tiles)@),
{
    let ghost before = tiles@;
    let ghost pick = settling_placements(*projection, row);
    let n: usize = tiles.len();
    let mut placements: Vec<Placement> = Vec::new();
    let mut i: usize = 0;
    while i < n
        invariant
            i <= n,
            n == tiles.len(),
            n == before.len(),
            projection.valid(),
            tiles_valid(before, projection.display),
            pick == settling_placements(*projection, row),
            placements@ == before.take(i as int).filter_map(pick),
            forall|k: int|
                0 <= k < i ==> #[trigger] tiles[k] == row_settled(before, *projection, row)[k]
                    && tiles[k].shown.bounded(),
            forall|k: int| i <= k < n ==> #[trigger] tiles[k] == before[k],
        decreases n - i,
    {
        proof {
            assert(before[i as int].valid(projection.display));
            before.lemma_filter_map_take_succ(pick, i as int);
        }
        let mut tile: ManagedTile = tiles[i];
        if tile.animation.is_none() && tile.position.row == row {
            let rect: Rect = projection.ribbon_to_screen(&tile.position);
            if rect.is_within_reach() {
                tile.shown = rect;
                tiles.set(i, tile);
                placements.push(Placement { id: tile.id, rect });
            }
        }
        i += 1;
    }
    proof {
        assert(before.take(before.len() as int) == before);
        assert(tiles@ =~= row_settled(before, *projection, row));
        lemma_same_places(before, tiles@, projection.display);
    }
    placements
}

/// The rectangle a window shows after `rect` was computed for it: `rect` where that is
/// fit to be committed, and what it showed before where it is not.
pub open spec fn committed(shown: Rect, rect: Rect, display: Display) -> Rect {
    if rect.near_display(display) {
        rect
    } else {
        shown
    }
}

/// A tile after a tick. A finished exit takes the tile away; any other finished
/// transition leaves it at rest at the target; one under way moves it along; and a
/// tile at rest follows the viewport while that scrolls.
pub open spec fn tile_after_tick(t: ManagedTile, projection: Projection, scrolling: bool, now: u64) -> Option<
    ManagedTile,
> {
    match t.animation {
        Some(a) => if a.finished(now) {
            if a.animation_type == AnimationType::Exit {
                None
            } else {
                Some(
                    ManagedTile {
                        animation: None,
                        shown: committed(t.shown, a.target_rect, projection.display),
                        ..t
                    },
                )
            }
        } else {
            Some(ManagedTile { shown: committed(t.shown, a.rect_at(now), projection.display), ..t })
        },
        None => if scrolling {
            Some(
                ManagedTile {
                    shown: committed(t.shown, projection.screen_rect(t.position), projection.display),
                    ..t
                },
            )
        } else {
            Some(t)
        },
    }
}

/// The placement a tick issues for a tile at rest: its place on screen while the
/// viewport scrolls, if it is fit to be committed.
pub open spec fn resting_placement(t: ManagedTile, projection: Projection, scrolling: bool) -> Option<
    Placement,
> {
    if scrolling && t.animation.is_none() && projection.screen_rect(t.position).near_display(
        projection.display,
    ) {
        Some(Placement { id: t.id, rect: projection.screen_rect(t.position) })
    } else {
        None
    }
}

/// The placement a tick issues for a tile in transition: the sampled rectangle, if it
/// is fit to be committed. A finished exit issues none.
pub open spec fn moving_placement(t: ManagedTile, display: Display, now: u64) -> Option<Placement> {
    match t.animation {
        Some(a) => if a.finished(now) && a.animation_type == AnimationType::Exit {
            None
        } else if a.rect_at(now).near_display(display) {
            Some(Placement { id: t.id, rect: a.rect_at(now) })
        } else {
            None
        },
        None => None,
    }
}

/// The restoration a tick issues for a tile: one for a finished exit, to the exit's
/// target.
pub open spec fn restoration_of(t: ManagedTile, now: u64) -> Option<Restoration> {
    match t.animation {
        Some(a) => if a.finished(now) && a.animation_type == AnimationType::Exit {
            Some(Restoration { id: t.id, saved: t.saved, rect: a.target_rect })
        } else {
            None
        },
        None => None,
    }
}

/// `tile_after_tick`, as a function of the tile.
pub open spec fn after_tick(projection: Projection, scrolling: bool, now: u64) -> spec_fn(
    ManagedTile,
) -> Option<ManagedTile> {
    |t: ManagedTile| tile_after_tick(t, projection, scrolling, now)
}

/// `resting_placement`, as a function of the tile.
pub open spec fn resting_placements(projection: Projection, scrolling: bool) -> spec_fn(
    ManagedTile,
) -> Option<Placement> {
    |t: ManagedTile| resting_placement(t, projection, scrolling)
}

/// `moving_placement`, as a function of the tile.
pub open spec fn moving_placements(display: Display, now: u64) -> spec_fn(ManagedTile) -> Option<
    Placement,
> {
    |t: ManagedTile| moving_placement(t, display, now)
}

/// `restoration_of`, as a function of the tile.
pub open spec fn restorations(now: u64) -> spec_fn(ManagedTile) -> Option<Restoration> {
    |t: ManagedTile| restoration_of(t, now)
}

/// Some tile is in transition.
pub open spec fn any_animating(tiles: Seq<ManagedTile>) -> bool {
    exists|i: int| 0 <= i < tiles.len() && (#[trigger] tiles[i]).animation.is_some()
}

/// Whether some tile is in transition.
pub fn has_animation(tiles: &Vec<ManagedTile>) -> (b: bool)
    ensures
        b == any_animating(tiles@),
{
    let mut i: usize = 0;
    while i < tiles.len()
        invariant
            i <= tiles.len(),
            forall|k: int| 0 <= k < i ==> (#[trigger] tiles[k]).animation.is_none(),
        decreases tiles.len() - i,
    {
        if tiles[i].animation.is_some() {
            return true;
        }
        i += 1;
    }
    false
}

/// Advances every tile to `now`.
pub fn tick_tiles(tiles: &mut Vec<ManagedTile>, projection: &Projection, scrolling: bool, now: u64) -> (out:
    TickOutput)
    requires
        projection.valid(),
        tiles_valid(old(tiles)@, projection.display),
    ensures
        final(tiles)@ == old(tiles)@.filter_map(after_tick(*projection, scrolling, now)),
        out.batch@ == old(tiles)@.filter_map(resting_placements(*projection, scrolling)) + old(
            tiles,
        )@.filter_map(moving_placements(projection.display, now)),
        out.restorations@ == old(tiles)@.filter_map(restorations(now)),
        tiles_valid(final(tiles)@, projection.display),
        final(tiles)@.len() + out.restorations@.len() == old(tiles)@.len(),
{
    let ghost before = tiles@;
    let ghost step = after_tick(*projection, scrolling, now);
    let ghost at_rest = resting_placements(*projection, scrolling);
    let ghost moving = moving_placements(projection.display, now);
    let ghost leaving = restorations(now);
    let display: Display = projection.display;
    let mut kept: Vec<ManagedTile> = Vec::new();
    let mut resting: Vec<Placement> = Vec::new();
    let mut animated: Vec<Placement> = Vec::new();
    let mut restored: Vec<Restoration> = Vec::new();
    let mut i: usize = 0;
    while i < tiles.len()
        invariant
            i <= tiles.len(),
            tiles@ == before,
            projection.valid(),
            display == projection.display,
            tiles_valid(before, display),
            step == after_tick(*projection, scrolling, now),
            at_rest == resting_placements(*projection, scrolling),
            moving == moving_placements(display, now),
            leaving == restorations(now),
            kept@ == before.take(i as int).filter_map(step),
            resting@ == before.take(i as int).filter_map(at_rest),
            animated@ == before.take(i as int).filter_map(moving),
            restored@ == before.take(i as int).filter_map(leaving),
            kept.len() + restored.len() == i,
            forall|k: int|
                0 <= k < kept.len() ==> (#[trigger] kept[k]).valid(display) && exists|j: int|
                    0 <= j < i && before[j].id == kept[k].id,
            distinct_ids(kept@),
        decreases tiles.len() - i,
    {
        let tile: ManagedTile = tiles[i];
        proof {
            assert(before[i as int].valid(display));
            before.lemma_filter_map_take_succ(step, i as int);
            before.lemma_filter_map_take_succ(at_rest, i as int);
            before.lemma_filter_map_take_succ(moving, i as int);
            before.lemma_filter_map_take_succ(leaving, i as int);
        }
        let ghost kept_before = kept@;
        let mut next: Option<ManagedTile> = Some(tile);
        match tile.animation {
            Some(a) => {
                if a.is_finished(now) {
                    match a.animation_type {
                        AnimationType::Exit => {
                            restored.push(Restoration { id: tile.id, saved: tile.saved, rect: a.target_rect });
                            next = None;
                        },
                        _ => {
                            let mut settled: ManagedTile = tile;
                            settled.animation = None;
                            if a.target_rect.is_near_display(&display) {
                                animated.push(Placement { id: tile.id, rect: a.target_rect });
                                settled.shown = a.target_rect;
                            }
                            next = Some(settled);
                        },
                    }
                } else {
                    let rect: Rect = a.sample(now);
                    let mut moved: ManagedTile = tile;
                    if rect.is_near_display(&display) {
                        animated.push(Placement { id: tile.id, rect });
                        moved.shown = rect;
                    }
                    next = Some(moved);
                }
            },
            None => {
                if scrolling {
                    let rect: Rect = projection.ribbon_to_screen(&tile.position);
                    let mut moved: ManagedTile = tile;
                    if rect.is_near_display(&display) {
                        resting.push(Placement { id: tile.id, rect });
                        moved.shown = rect;
                    }
                    next = Some(moved);
                }
            },
        }
        proof {
            assert(next == step(tile));
        }
        match next {
            Some(t) => {
                proof {
                    assert forall|k: int| 0 <= k < kept.len() implies (#[trigger] kept[k]).id
                        != t.id by {
                        let j = choose|j: int| 0 <= j < i && before[j].id == kept[k].id;
                        assert(before[j].id != before[i as int].id);
                    }
                }
                kept.push(t);
                proof {
                    assert forall|k: int| 0 <= k < kept.len() implies (#[trigger] kept[k]).valid(
                        display,
                    ) && exists|j: int| 0 <= j < i + 1 && before[j].id == kept[k].id by {
                        if k == kept.len() - 1 {
                            assert(before[i as int].id == kept[k].id);
                        } else {
                            assert(kept[k] == kept_before[k]);
                            let j = choose|j: int| 0 <= j < i && before[j].id == kept_before[k].id;
                            assert(before[j].id == kept[k].id);
                        }
                    }
                }
            },
            None => {
                proof {
                    assert forall|k: int| 0 <= k < kept.len() implies (#[trigger] kept[k]).valid(
                        display,
                    ) && exists|j: int| 0 <= j < i + 1 && before[j].id == kept[k].id by {
                        let j = choose|j: int| 0 <= j < i && before[j].id == kept[k].id;
                        assert(before[j].id == kept[k].id);
                    }
                }
            },
        }
        i += 1;
    }
    proof {
        assert(before.take(before.len() as int) == before);
    }
    *tiles = kept;
    let mut batch: Vec<Placement> = resting;
    batch.append(&mut animated);
    TickOutput { batch, restorations: restored }
}

/// Twice the distance, squared, between the centre of `rect` and the centre of the
/// display.
pub open spec fn center_distance(rect: Rect, display: Display) -> int {
    let dx = 2 * div_toward_zero(rect.left + rect.right, 2) - display.width;
    let dy = 2 * div_toward_zero(rect.top + rect.bottom, 2) - display.height;
    dx * dx + dy * dy
}

/// For the tiles that show, how far from the middle of the display they are.
pub open spec fn focus_distance(tiles: Seq<ManagedTile>, projection: Projection) -> spec_fn(int) -> Option<
    int,
> {
    |i: int|
        if projection.shows(tiles[i].position) {
            Some(center_distance(projection.screen_rect(tiles[i].position), projection.display))
        } else {
            None
        }
}

/// The tile that focus follows to: of the tiles that show, the one whose centre is
/// nearest the middle of the display, the earliest such tile where several are as
/// near. `None` where no tile shows.
pub open spec fn focus_candidate(tiles: Seq<ManagedTile>, projection: Projection) -> Option<i64> {
    match first_least(tiles.len() as int, focus_distance(tiles, projection)) {
        Some(i) => Some(tiles[i].id),
        None => None,
    }
}

/// The tile that focus follows to: the tile that shows nearest the middle of the
/// display.
pub fn focus_visible_window(tiles: &Vec<ManagedTile>, projection: &Projection) -> (focus: Option<i64>)
    requires
        projection.valid(),
        tiles_valid(tiles@, projection.display),
    ensures
        focus == focus_candidate(tiles@, *projection),
        focus.is_some() ==> manages(tiles@, focus.unwrap()),
{
    let ghost key = focus_distance(tiles@, *projection);
    let mut best: Option<usize> = None;
    let mut best_distance: i128 = 0;
    let mut i: usize = 0;
    while i < tiles.len()
        invariant
            i <= tiles.len(),
            projection.valid(),
            tiles_valid(tiles@, projection.display),
            key == focus_distance(tiles@, *projection),
            match best {
                Some(b) => first_least(i as int, key) == Some(b as int) && b < i && key(b as int)
                    == Some(best_distance as int),
                None => first_least(i as int, key).is_none(),
            },
        decreases tiles.len() - i,
    {
        proof {
            assert(tiles@[i as int].valid(projection.display));
        }
        if projection.is_window_visible(&tiles[i].position) {
            let rect: Rect = projection.ribbon_to_screen(&tiles[i].position);
            let center_x: i64 = (rect.left as i64 + rect.right as i64) / 2;
            let center_y: i64 = (rect.top as i64 + rect.bottom as i64) / 2;
            let dx: i128 = (2 * center_x - projection.display.width as i64) as i128;
            let dy: i128 = (2 * center_y - projection.display.height as i64) as i128;
            proof {
                assert(-0x1_0000_0000 <= dx <= 0x1_0000_0000);
                assert(-0x1_0000_0000 <= dy <= 0x1_0000_0000);
                assert(0 <= dx * dx <= 0x1_0000_0000 * 0x1_0000_0000) by (nonlinear_arith)
                    requires
                        -0x1_0000_0000 <= dx <= 0x1_0000_0000,
                ;
                assert(0 <= dy * dy <= 0x1_0000_0000 * 0x1_0000_0000) by (nonlinear_arith)
                    requires
                        -0x1_0000_0000 <= dy <= 0x1_0000_0000,
                ;
            }
            let distance: i128 = dx * dx + dy * dy;
            let improves: bool = match best {
                Some(_) => distance < best_distance,
                None => true,
            };
            if improves {
                best = Some(i);
                best_distance = distance;
            }
        }
        i += 1;
    }
    match best {
        Some(b) => Some(tiles[b].id),
        None => None,
    }
}

} // verus!
