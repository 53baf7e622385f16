use thymeline::animation::{AnimationState, AnimationType};
use thymeline::arrange::{
    contains_id, find_nearest_edge, find_obstacle, push_aside, remove_tiles, shift_right,
};
use thymeline::geometry::{Display, Margins, Projection, Rect, RibbonPosition, TileSize};
use thymeline::layout::{
    find_tile, highest_row, horizontal_limit, is_x_position_occupied, total_extent, vertical_limit,
    ManagedTile, SavedWindow,
};
use thymeline::packing::pack;
use thymeline::schedule::{
    animate_all, animate_universe_movement, apply_with_animation_type, focus_visible_window,
    has_animation, place_all, settle_row, start_animation, tick_tiles, Placement, Restoration,
};
use thymeline::viewport::{compute_limits, Limits, ViewportState};

fn display() -> Display {
    Display { width: 1920, height: 1080 }
}

fn rect(left: i32, top: i32, right: i32, bottom: i32) -> Rect {
    Rect { left, top, right, bottom }
}

fn saved() -> SavedWindow {
    SavedWindow { style: 0x14CF_0000, ex_style: 0x100, rect: rect(100, 100, 900, 700) }
}

fn tile(id: i64, x: i32, row: i32, size: TileSize) -> ManagedTile {
    ManagedTile {
        id,
        saved: saved(),
        position: RibbonPosition { x, row, size },
        animation: None,
        shown: rect(0, 0, 10, 10),
    }
}

fn xs(tiles: &Vec<ManagedTile>) -> Vec<i32> {
    tiles.iter().map(|t| t.position.x).collect()
}

fn projection(offset_x: i32, offset_y: i32) -> Projection {
    Projection { display: display(), margins: Margins { horizontal: 40, vertical: 80 }, offset_x, offset_y }
}

#[test]
fn packing_closes_gaps_and_overlaps_row_by_row() {
    let mut tiles = vec![
        tile(1, 500, 0, TileSize::Half),
        tile(2, 100, 0, TileSize::Full),
        tile(3, 3000, 0, TileSize::Half),
        tile(4, 960, 1, TileSize::Half),
        tile(5, 7000, 2, TileSize::Full),
    ];
    pack(&mut tiles, &display());
    // Row 0 in order of x: tile 2 (full), tile 1 (half), tile 3 (half).
    assert_eq!(xs(&tiles), vec![1920, 0, 2880, 0, 0]);
    // Nothing but x changes.
    assert_eq!(tiles[0].id, 1);
    assert_eq!(tiles[0].position.row, 0);
    assert_eq!(tiles[0].position.size, TileSize::Half);
    assert_eq!(tiles[3].position.row, 1);
    assert_eq!(tiles[4].position.size, TileSize::Full);
}

#[test]
fn packing_twice_changes_nothing_more() {
    let mut tiles = vec![
        tile(1, 500, 0, TileSize::Half),
        tile(2, 100, 0, TileSize::Full),
        tile(3, 100, 0, TileSize::Half),
        tile(4, 960, 1, TileSize::Half),
    ];
    pack(&mut tiles, &display());
    let once = tiles.clone();
    pack(&mut tiles, &display());
    assert_eq!(tiles, once);
}

#[test]
fn packing_breaks_ties_by_the_order_of_the_tiles() {
    let mut tiles = vec![
        tile(1, 300, 0, TileSize::Half),
        tile(2, 300, 0, TileSize::Full),
        tile(3, 300, 0, TileSize::Half),
    ];
    pack(&mut tiles, &display());
    assert_eq!(xs(&tiles), vec![0, 960, 2880]);
}

#[test]
fn packing_of_nothing_and_of_one() {
    let mut none: Vec<ManagedTile> = Vec::new();
    pack(&mut none, &display());
    assert!(none.is_empty());
    let mut one = vec![tile(9, 4321, 3, TileSize::Half)];
    pack(&mut one, &display());
    assert_eq!(xs(&one), vec![0]);
}

#[test]
fn extent_and_limits() {
    let tiles = vec![
        tile(1, 0, 0, TileSize::Half),
        tile(2, 960, 0, TileSize::Half),
        tile(3, 1920, 2, TileSize::Half),
    ];
    assert_eq!(total_extent(&tiles, &display()), 2880);
    assert_eq!(highest_row(&tiles, &display()), 2);
    assert_eq!(horizontal_limit(&tiles, &display()), 960);
    assert_eq!(vertical_limit(&tiles, &display()), 3240);
    assert_eq!(compute_limits(&tiles, &display()), Limits { max_x: 960, max_y: 3240, top_row: 2 });
    let none: Vec<ManagedTile> = Vec::new();
    assert_eq!(total_extent(&none, &display()), 0);
    assert_eq!(horizontal_limit(&none, &display()), 0);
    assert_eq!(vertical_limit(&none, &display()), 1080);
    // A ribbon narrower than the display cannot scroll.
    let narrow = vec![tile(1, 0, 0, TileSize::Half)];
    assert_eq!(horizontal_limit(&narrow, &display()), 0);
}

#[test]
fn finding_tiles_by_id() {
    let tiles = vec![tile(7, 0, 0, TileSize::Half), tile(8, 960, 0, TileSize::Half)];
    assert_eq!(find_tile(&tiles, 8), Some(1));
    assert_eq!(find_tile(&tiles, 7), Some(0));
    assert_eq!(find_tile(&tiles, 9), None);
    assert!(contains_id(&vec![3, 4, 5], 4));
    assert!(!contains_id(&vec![3, 4, 5], 6));
}

#[test]
fn occupation_of_an_interval() {
    let tiles = vec![tile(1, 0, 0, TileSize::Half), tile(2, 1920, 1, TileSize::Half)];
    assert!(is_x_position_occupied(&tiles, &display(), 0, 960));
    assert!(is_x_position_occupied(&tiles, &display(), 959, 1));
    assert!(!is_x_position_occupied(&tiles, &display(), 960, 960));
    assert!(is_x_position_occupied(&tiles, &display(), 960, 961));
    assert!(!is_x_position_occupied(&tiles, &display(), 2880, 100));
}

#[test]
fn removing_tiles_keeps_the_order_of_the_rest() {
    let mut tiles = vec![
        tile(1, 0, 0, TileSize::Half),
        tile(2, 960, 0, TileSize::Half),
        tile(3, 1920, 0, TileSize::Half),
        tile(4, 2880, 0, TileSize::Half),
    ];
    let removed = remove_tiles(&mut tiles, &vec![2, 4, 99], &display());
    assert!(removed);
    assert_eq!(tiles.iter().map(|t| t.id).collect::<Vec<i64>>(), vec![1, 3]);
    assert_eq!(xs(&tiles), vec![0, 1920]);
    let removed_again = remove_tiles(&mut tiles, &vec![2, 4, 99], &display());
    assert!(!removed_again);
    assert_eq!(tiles.len(), 2);
}

#[test]
fn shifting_moves_the_row_from_a_point_on() {
    let mut tiles = vec![
        tile(1, 0, 0, TileSize::Half),
        tile(2, 960, 0, TileSize::Half),
        tile(3, 1920, 0, TileSize::Half),
        tile(4, 960, 1, TileSize::Half),
        tile(5, 2000, 0, TileSize::Half),
    ];
    shift_right(&mut tiles, &display(), 0, 960, 500, 5);
    // Row 0 from x = 960 on moves, but not the excepted tile; row 1 stays.
    assert_eq!(xs(&tiles), vec![0, 1460, 2420, 960, 2000]);
}

#[test]
fn pushing_aside_moves_only_what_overlaps() {
    let mut tiles = vec![
        tile(1, 0, 1, TileSize::Half),
        tile(2, 960, 1, TileSize::Half),
        tile(3, 1920, 1, TileSize::Half),
        tile(4, 1000, 0, TileSize::Half),
    ];
    // The interval [900, 1860) meets tiles 1 and 2 of row 1, not tile 3.
    push_aside(&mut tiles, &display(), 1, 900, 960);
    assert_eq!(xs(&tiles), vec![960, 1920, 1920, 1000]);
}

#[test]
fn the_first_obstacle_is_the_first_in_the_order_of_the_tiles() {
    let tiles = vec![
        tile(1, 0, 0, TileSize::Half),
        tile(2, 1920, 0, TileSize::Half),
        tile(3, 960, 0, TileSize::Half),
        tile(4, 960, 1, TileSize::Half),
    ];
    // Tile 1 placed at 1000 meets tiles 2 and 3; tile 2 comes first.
    assert_eq!(find_obstacle(&tiles, &display(), 0, 1000), 1);
    // Placed at 960 exactly, it meets only tile 3.
    assert_eq!(find_obstacle(&tiles, &display(), 0, 960), 2);
    // Placed far right, nothing is in the way.
    assert_eq!(find_obstacle(&tiles, &display(), 0, 5000), 4);
    // The tile of the other row is never in the way.
    assert_eq!(find_obstacle(&tiles, &display(), 3, 0), 4);
}

#[test]
fn the_nearest_edge_wins_and_the_earliest_among_equals() {
    let tiles = vec![
        tile(1, 0, 0, TileSize::Half),
        tile(2, 960, 0, TileSize::Half),
        tile(3, 400, 1, TileSize::Half),
    ];
    // 960 is the right edge of tile 1 and the left edge of tile 2.
    assert_eq!(find_nearest_edge(&tiles, &display(), 0, 960, 77), 960);
    assert_eq!(find_nearest_edge(&tiles, &display(), 0, 100, 77), 0);
    assert_eq!(find_nearest_edge(&tiles, &display(), 0, 1500, 77), 1920);
    // Exactly between two edges: the earlier edge, here the left one of tile 1.
    assert_eq!(find_nearest_edge(&tiles, &display(), 0, 480, 77), 0);
    // The other row has its own edges.
    assert_eq!(find_nearest_edge(&tiles, &display(), 1, 0, 77), 400);
    // An empty row gives the fallback.
    assert_eq!(find_nearest_edge(&tiles, &display(), 2, 960, 77), 77);
}

#[test]
fn a_new_transition_starts_where_the_old_one_is() {
    let mut t = tile(1, 0, 0, TileSize::Half);
    t.animation = Some(AnimationState {
        start_rect: rect(0, 0, 100, 100),
        target_rect: rect(800, 400, 1000, 600),
        start_time: 1000,
        duration: 200,
        animation_type: AnimationType::Move,
    });
    let target = rect(20, 40, 940, 1040);
    let next = start_animation(&t, AnimationType::Move, rect(5, 5, 6, 6), target, 1100, 87, &display());
    let b = next.animation.unwrap();
    // Where the first transition is at 1100, and not the resting rectangle handed in.
    assert_eq!(b.start_rect, rect(700, 350, 887, 537));
    assert_eq!(b.start_rect, t.animation.unwrap().sample(1100));
    assert_eq!(b.target_rect, target);
    assert_eq!(b.start_time, 1100);
    assert_eq!(b.duration, 87);
    // No jump: the new transition has the tile at that rectangle at that moment.
    assert_eq!(b.sample(1100), rect(700, 350, 887, 537));
}

#[test]
fn a_transition_of_a_resting_tile_starts_from_the_resting_rectangle() {
    let t = tile(1, 0, 0, TileSize::Half);
    let next = start_animation(
        &t,
        AnimationType::Exit,
        rect(5, 5, 60, 60),
        rect(100, 100, 900, 700),
        70,
        200,
        &display(),
    );
    let b = next.animation.unwrap();
    assert_eq!(b.start_rect, rect(5, 5, 60, 60));
    assert_eq!(b.animation_type, AnimationType::Exit);
}

#[test]
fn transitions_toward_the_screen_place_have_their_durations() {
    let t = tile(1, 960, 0, TileSize::Half);
    let p = projection(0, 0);
    let entry = apply_with_animation_type(&t, AnimationType::Entry, &p, 10).animation.unwrap();
    assert_eq!(entry.duration, 200);
    assert_eq!(entry.target_rect, rect(980, 40, 1900, 1040));
    assert_eq!(entry.start_rect, entry.target_rect);
    let mv = apply_with_animation_type(&t, AnimationType::Move, &p, 10).animation.unwrap();
    assert_eq!(mv.duration, 87);
    assert_eq!(mv.start_rect, rect(0, 0, 10, 10));
    let exit = apply_with_animation_type(&t, AnimationType::Exit, &p, 10).animation.unwrap();
    assert_eq!(exit.duration, 200);
}

#[test]
fn animating_all_tiles_sends_each_to_its_place() {
    let mut tiles = vec![tile(1, 0, 0, TileSize::Half), tile(2, 960, 0, TileSize::Half)];
    animate_all(&mut tiles, &projection(0, 0), 500);
    assert_eq!(tiles[0].animation.unwrap().target_rect, rect(20, 40, 940, 1040));
    assert_eq!(tiles[1].animation.unwrap().target_rect, rect(980, 40, 1900, 1040));
    assert_eq!(tiles[1].animation.unwrap().start_time, 500);
    assert!(has_animation(&tiles));
}

#[test]
fn the_glide_spares_the_moved_tile() {
    let mut tiles = vec![tile(1, 0, 0, TileSize::Half), tile(2, 960, 0, TileSize::Half)];
    animate_universe_movement(&mut tiles, &projection(0, 0), &projection(960, 0), 500, 1);
    assert!(tiles[0].animation.is_none());
    let a = tiles[1].animation.unwrap();
    assert_eq!(a.start_rect, rect(980, 40, 1900, 1040));
    assert_eq!(a.target_rect, rect(20, 40, 940, 1040));
    assert_eq!(a.duration, 200);
    assert_eq!(a.animation_type, AnimationType::Move);
}

#[test]
fn placing_all_tiles_skips_what_is_out_of_reach() {
    let mut tiles = vec![
        tile(1, 0, 0, TileSize::Half),
        tile(2, 30_000, 0, TileSize::Half),
        tile(3, 960, 0, TileSize::Half),
    ];
    let placements = place_all(&mut tiles, &projection(0, 0));
    assert_eq!(
        placements,
        vec![
            Placement { id: 1, rect: rect(20, 40, 940, 1040) },
            Placement { id: 3, rect: rect(980, 40, 1900, 1040) },
        ]
    );
    assert_eq!(tiles[0].shown, rect(20, 40, 940, 1040));
    assert_eq!(tiles[1].shown, rect(0, 0, 10, 10));
}

#[test]
fn settling_a_row_places_only_its_resting_tiles() {
    let mut tiles = vec![
        tile(1, 0, 0, TileSize::Half),
        tile(2, 960, 0, TileSize::Half),
        tile(3, 0, 1, TileSize::Half),
    ];
    tiles[1].animation = Some(AnimationState {
        start_rect: rect(0, 0, 1, 1),
        target_rect: rect(0, 0, 2, 2),
        start_time: 0,
        duration: 200,
        animation_type: AnimationType::Move,
    });
    let placements = settle_row(&mut tiles, &projection(0, 0), 0);
    assert_eq!(placements, vec![Placement { id: 1, rect: rect(20, 40, 940, 1040) }]);
    assert_eq!(tiles[2].shown, rect(0, 0, 10, 10));
}

fn in_flight(start: Rect, target: Rect, kind: AnimationType) -> Option<AnimationState> {
    Some(AnimationState { start_rect: start, target_rect: target, start_time: 1000, duration: 200, animation_type: kind })
}

#[test]
fn a_tick_moves_tiles_along_and_ends_what_has_run_its_length() {
    let mut tiles = vec![
        tile(1, 0, 0, TileSize::Half),
        tile(2, 960, 0, TileSize::Half),
        tile(3, 1920, 0, TileSize::Half),
        tile(4, 2880, 0, TileSize::Half),
    ];
    tiles[0].animation = in_flight(rect(0, 0, 100, 100), rect(800, 400, 1000, 600), AnimationType::Move);
    tiles[1].animation = in_flight(rect(0, 0, 100, 100), rect(100, 100, 900, 700), AnimationType::Exit);
    tiles[2].animation = Some(AnimationState {
        start_rect: rect(0, 0, 100, 100),
        target_rect: rect(10, 20, 300, 400),
        start_time: 0,
        duration: 200,
        animation_type: AnimationType::Entry,
    });
    let out = tick_tiles(&mut tiles, &projection(0, 0), false, 1100);
    assert_eq!(
        out.batch,
        vec![
            Placement { id: 1, rect: rect(700, 350, 887, 537) },
            Placement { id: 2, rect: rect(87, 87, 800, 625) },
            Placement { id: 3, rect: rect(10, 20, 300, 400) },
        ]
    );
    assert!(out.restorations.is_empty());
    assert_eq!(tiles.len(), 4);
    assert!(tiles[0].animation.is_some());
    assert_eq!(tiles[0].shown, rect(700, 350, 887, 537));
    // The entry has run its length: the tile rests exactly at the target.
    assert!(tiles[2].animation.is_none());
    assert_eq!(tiles[2].shown, rect(10, 20, 300, 400));
    // The tile at rest is not touched while the viewport stands still.
    assert_eq!(tiles[3].shown, rect(0, 0, 10, 10));
}

#[test]
fn a_finished_exit_takes_the_tile_away() {
    let mut tiles = vec![tile(1, 0, 0, TileSize::Half), tile(2, 960, 0, TileSize::Half)];
    tiles[1].animation = in_flight(rect(0, 0, 100, 100), rect(100, 100, 900, 700), AnimationType::Exit);
    let out = tick_tiles(&mut tiles, &projection(0, 0), false, 1200);
    assert!(out.batch.is_empty());
    assert_eq!(out.restorations, vec![Restoration { id: 2, saved: saved(), rect: rect(100, 100, 900, 700) }]);
    assert_eq!(tiles.len(), 1);
    assert_eq!(tiles[0].id, 1);
}

#[test]
fn a_scrolling_tick_repositions_resting_tiles_first() {
    let mut tiles = vec![
        tile(1, 0, 0, TileSize::Half),
        tile(2, 960, 0, TileSize::Half),
        tile(3, 1920, 0, TileSize::Half),
    ];
    tiles[0].animation = in_flight(rect(0, 0, 100, 100), rect(800, 400, 1000, 600), AnimationType::Move);
    let out = tick_tiles(&mut tiles, &projection(480, 0), true, 1100);
    assert_eq!(
        out.batch,
        vec![
            Placement { id: 2, rect: rect(500, 40, 1420, 1040) },
            Placement { id: 3, rect: rect(1460, 40, 2380, 1040) },
            Placement { id: 1, rect: rect(700, 350, 887, 537) },
        ]
    );
    assert_eq!(tiles[1].shown, rect(500, 40, 1420, 1040));
}

#[test]
fn a_degenerate_rectangle_is_never_in_the_batch() {
    let mut tiles = vec![tile(1, 0, 0, TileSize::Half), tile(2, 20_000, 0, TileSize::Half)];
    tiles[0].animation = Some(AnimationState {
        start_rect: rect(0, 0, 100, 100),
        target_rect: rect(100, 100, 100, 200),
        start_time: 0,
        duration: 200,
        animation_type: AnimationType::Move,
    });
    let out = tick_tiles(&mut tiles, &projection(0, 0), true, 5000);
    // The first has no width, the second lies far off the display.
    assert!(out.batch.is_empty());
    assert!(tiles[0].animation.is_none());
    assert_eq!(tiles[0].shown, rect(0, 0, 10, 10));
    assert_eq!(tiles[1].shown, rect(0, 0, 10, 10));
}

#[test]
fn focus_follows_to_the_tile_nearest_the_middle() {
    let tiles = vec![
        tile(1, 0, 0, TileSize::Half),
        tile(2, 960, 0, TileSize::Half),
        tile(3, 1920, 0, TileSize::Half),
        tile(4, 960, 1, TileSize::Full),
    ];
    // Offsets (480, 0): tile 2 spans the middle of the display.
    assert_eq!(focus_visible_window(&tiles, &projection(480, 0)), Some(2));
    // Offsets (0, 0): tiles 1 and 2 are as near; the earlier one wins.
    assert_eq!(focus_visible_window(&tiles, &projection(0, 0)), Some(1));
    // Scrolled to row 1, the full tile is centred where x offset is 960.
    assert_eq!(focus_visible_window(&tiles, &projection(960, 1080)), Some(4));
    let none: Vec<ManagedTile> = Vec::new();
    assert_eq!(focus_visible_window(&none, &projection(0, 0)), None);
}

#[test]
fn focus_follows_to_nothing_where_nothing_shows() {
    let tiles = vec![tile(1, 100_000, 0, TileSize::Half)];
    assert_eq!(focus_visible_window(&tiles, &projection(0, 0)), None);
}

#[test]
fn viewport_pans_by_half_a_display_and_stops_at_the_limits() {
    let l = Limits { max_x: 1400, max_y: 1080, top_row: 0 };
    let v = ViewportState::new();
    let a = v.pan_ribbon(thymeline::geometry::Direction::Right, &l, &display(), 100);
    assert_eq!(a.ribbon_offset_target, 960);
    assert_eq!(a.ribbon_offset, 0);
    let s = a.scroll_animation.unwrap();
    assert_eq!((s.start_x, s.target_x, s.start_time, s.duration), (0, 960, 100, 200));
    let b = a.pan_ribbon(thymeline::geometry::Direction::Right, &l, &display(), 200);
    assert_eq!(b.ribbon_offset_target, 1400);
    let c = b.pan_ribbon(thymeline::geometry::Direction::Right, &l, &display(), 900);
    assert_eq!(c, b);
    let d = v.pan_ribbon(thymeline::geometry::Direction::Left, &l, &display(), 100);
    assert_eq!(d, v);
    let e = v.pan_ribbon(thymeline::geometry::Direction::Up, &l, &display(), 100);
    assert_eq!(e, v);
}

#[test]
fn a_new_scroll_starts_where_the_old_one_is() {
    let l = Limits { max_x: 1920, max_y: 1080, top_row: 0 };
    let v = ViewportState::new();
    let a = v.pan_ribbon(thymeline::geometry::Direction::Right, &l, &display(), 1000);
    // Halfway through the first scroll the offset is at 840.
    let b = a.pan_ribbon(thymeline::geometry::Direction::Right, &l, &display(), 1100);
    let s = b.scroll_animation.unwrap();
    assert_eq!(s.start_x, 840);
    assert_eq!(b.ribbon_offset, 840);
    assert_eq!(s.target_x, 1920);
    assert_eq!(s.start_time, 1100);
}

#[test]
fn viewport_advances_and_lands() {
    let l = Limits { max_x: 1920, max_y: 1080, top_row: 0 };
    let v = ViewportState::new().pan_ribbon(thymeline::geometry::Direction::Right, &l, &display(), 1000);
    let mid = v.advance(&l, &display(), 1100);
    assert_eq!(mid.ribbon_offset, 840);
    assert!(mid.scroll_animation.is_some());
    assert!(!v.scroll_arrives(1199));
    assert!(v.scroll_arrives(1200));
    let end = v.advance(&l, &display(), 1200);
    assert_eq!(end.ribbon_offset, 960);
    assert_eq!(end.ribbon_offset_target, 960);
    assert!(end.scroll_animation.is_none());
    // Limits that shrank in the meantime hold the landing back.
    let tight = Limits { max_x: 500, max_y: 1080, top_row: 0 };
    let held = v.advance(&tight, &display(), 1200);
    assert_eq!(held.ribbon_offset, 500);
    assert_eq!(held.ribbon_offset_target, 500);
}

#[test]
fn row_pans_stop_one_row_above_the_highest_tile() {
    let l = Limits { max_x: 0, max_y: 2160, top_row: 1 };
    let v = ViewportState::new();
    let up = v.pan_row(thymeline::geometry::Direction::Up, &l, &display(), 0);
    assert_eq!(up, v);
    let one = v.pan_row(thymeline::geometry::Direction::Down, &l, &display(), 0);
    assert_eq!((one.current_row, one.vertical_offset_target), (1, 1080));
    // The empty row above the highest tile can be scrolled to, and no row beyond it.
    let two = one.pan_row(thymeline::geometry::Direction::Down, &l, &display(), 0);
    assert_eq!((two.current_row, two.vertical_offset_target), (2, 2160));
    assert_eq!(two.scroll_animation.unwrap().target_y, 2160);
    let three = two.pan_row(thymeline::geometry::Direction::Down, &l, &display(), 0);
    assert_eq!(three, two);
    let back = two.pan_row(thymeline::geometry::Direction::Up, &l, &display(), 0);
    assert_eq!((back.current_row, back.vertical_offset_target), (1, 1080));
    let sideways = one.pan_row(thymeline::geometry::Direction::Left, &l, &display(), 0);
    assert_eq!(sideways, one);
}

#[test]
fn the_neighbour_is_the_nearest_tile_of_the_row_on_that_side() {
    let tiles = vec![
        tile(1, 1920, 0, TileSize::Half),
        tile(2, 4000, 0, TileSize::Half),
        tile(3, 2880, 0, TileSize::Half),
        tile(4, 0, 0, TileSize::Full),
        tile(5, 2000, 1, TileSize::Half),
    ];
    let right = thymeline::geometry::Direction::Right;
    let left = thymeline::geometry::Direction::Left;
    assert_eq!(thymeline::arrange::find_neighbour(&tiles, &display(), 0, right), 2);
    assert_eq!(thymeline::arrange::find_neighbour(&tiles, &display(), 0, left), 3);
    assert_eq!(thymeline::arrange::find_neighbour(&tiles, &display(), 3, left), 5);
    assert_eq!(thymeline::arrange::find_neighbour(&tiles, &display(), 1, right), 5);
    assert_eq!(thymeline::arrange::find_neighbour(&tiles, &display(), 1, left), 2);
    assert_eq!(thymeline::arrange::find_neighbour(&tiles, &display(), 4, right), 5);
}

#[test]
fn clamping_brings_every_value_within_the_limits() {
    let l = Limits { max_x: 100, max_y: 200, top_row: 0 };
    let v = ViewportState {
        ribbon_offset: 500,
        ribbon_offset_target: -3,
        vertical_offset: 201,
        vertical_offset_target: 200,
        current_row: 7,
        scroll_animation: None,
    };
    let c = v.clamp(&l);
    assert_eq!(
        (c.ribbon_offset, c.ribbon_offset_target, c.vertical_offset, c.vertical_offset_target, c.current_row),
        (100, 0, 200, 200, 1)
    );
}
