use thymeline::animation::{AnimationType, ScrollAnimation};
use thymeline::commands::{Surroundings, Throttle, TilerCommand, WindowProbe};
use thymeline::dispatch::Disposition;
use thymeline::geometry::{Direction, Display, Margins, Rect, RibbonPosition, TileSize};
use thymeline::layout::{horizontal_limit, total_extent, vertical_limit, ManagedTile, SavedWindow};
use thymeline::model::AddOutcome;
use thymeline::schedule::{Placement, Restoration};
use thymeline::styling::{is_translucent, OPAQUE};
use thymeline::tiler::RibbonTiler;

fn display() -> Display {
    Display { width: 1920, height: 1080 }
}

fn rect(left: i32, top: i32, right: i32, bottom: i32) -> Rect {
    Rect { left, top, right, bottom }
}

fn probe() -> Option<WindowProbe> {
    Some(WindowProbe {
        eligible: true,
        popup: false,
        style: 0x14CF_0000,
        ex_style: 0x100,
        rect: rect(100, 100, 900, 700),
    })
}

fn popup() -> Option<WindowProbe> {
    Some(WindowProbe { eligible: true, popup: true, style: 0x8000_0000, ex_style: 0, rect: rect(0, 0, 300, 200) })
}

fn tile(id: i64, x: i32, row: i32, size: TileSize) -> ManagedTile {
    ManagedTile {
        id,
        saved: SavedWindow { style: 0x14CF_0000, ex_style: 0x100, rect: rect(100, 100, 900, 700) },
        position: RibbonPosition { x, row, size },
        animation: None,
        shown: rect(0, 0, 10, 10),
    }
}

fn tiler_with(tiles: Vec<ManagedTile>) -> RibbonTiler {
    let mut t = RibbonTiler::new(display(), 0);
    t.tiles = tiles;
    t
}

fn span(t: &RibbonTiler, id: i64) -> (i32, i32, i32) {
    let tile = t.tiles.iter().find(|tile| tile.id == id).unwrap();
    let width = t.display.get_tile_width(tile.position.size);
    (tile.position.x, tile.position.x + width, tile.position.row)
}

fn around(foreground: i64) -> Surroundings {
    Surroundings { display: display(), foreground, closed: Vec::new(), minimized: Vec::new() }
}

fn in_bounds(t: &RibbonTiler) -> bool {
    let max_x = horizontal_limit(&t.tiles, &t.display);
    let max_y = vertical_limit(&t.tiles, &t.display);
    let extent = total_extent(&t.tiles, &t.display);
    max_x == std::cmp::max(0, extent - t.display.width)
        && 0 <= t.viewport.ribbon_offset
        && t.viewport.ribbon_offset <= max_x
        && 0 <= t.viewport.ribbon_offset_target
        && t.viewport.ribbon_offset_target <= max_x
        && 0 <= t.viewport.vertical_offset
        && t.viewport.vertical_offset <= max_y
        && 0 <= t.viewport.vertical_offset_target
        && t.viewport.vertical_offset_target <= max_y
}

#[test]
fn a_fresh_tiler_is_empty_and_at_rest() {
    let t = RibbonTiler::new(display(), 42);
    assert!(t.tiles.is_empty());
    assert!(t.floating_windows.is_empty());
    assert!(t.command_queue.is_empty());
    assert_eq!(t.viewport.ribbon_offset, 0);
    assert_eq!(t.viewport.current_row, 0);
    assert_eq!(t.margins, Margins { horizontal: 40, vertical: 80 });
    assert_eq!(t.transparency, 255);
    assert_eq!(t.animation_fps, 90);
    assert_eq!(t.last_resolution_check, 42);
    assert_eq!(t.last_ribbon_recalc, 42);
    assert!(!t.needs_ribbon_recalc);
    assert!(!t.animation_running);
    assert!(t.is_idle());
}

#[test]
fn two_windows_are_added_one_resized_and_one_removed() {
    let mut t = RibbonTiler::new(display(), 0);

    assert_eq!(t.add_window(1, probe(), 1, 10), AddOutcome::Tiled);
    assert_eq!(span(&t, 1), (0, 960, 0));

    assert_eq!(t.add_window(2, probe(), 2, 300), AddOutcome::Tiled);
    assert_eq!(span(&t, 1), (0, 960, 0));
    assert_eq!(span(&t, 2), (960, 1920, 0));

    t.resize_window(1, Direction::Right, None, 1, 600);
    assert_eq!(span(&t, 1), (0, 1920, 0));
    assert_eq!(span(&t, 2), (1920, 2880, 0));
    assert_eq!(horizontal_limit(&t.tiles, &t.display), 960);

    assert!(t.remove_window(2, 1000));
    // The tile stays while it leaves.
    assert_eq!(t.tiles.len(), 2);
    let exit = t.tiles[1].animation.unwrap();
    assert_eq!(exit.animation_type, AnimationType::Exit);
    assert_eq!(exit.target_rect, rect(100, 100, 900, 700));
    assert_eq!(exit.duration, 200);

    let frame = t.update_animations(1200);
    assert_eq!(
        frame.restorations,
        vec![Restoration {
            id: 2,
            saved: SavedWindow { style: 0x14CF_0000, ex_style: 0x100, rect: rect(100, 100, 900, 700) },
            rect: rect(100, 100, 900, 700),
        }]
    );
    // With the exit over, the recalculation closes the gap.
    assert_eq!(t.tiles.len(), 1);
    assert_eq!(span(&t, 1), (0, 1920, 0));
    assert_eq!(horizontal_limit(&t.tiles, &t.display), 0);
    assert!(!t.needs_ribbon_recalc);
    assert!(!t.animation_running);
    assert!(in_bounds(&t));
}

#[test]
fn panning_right_twice_stops_at_the_limit() {
    let mut t = RibbonTiler::new(display(), 0);
    assert_eq!(t.add_window(1, probe(), 1, 0), AddOutcome::Tiled);
    assert_eq!(t.add_window(2, probe(), 2, 0), AddOutcome::Tiled);
    assert_eq!(t.add_window(3, probe(), 3, 0), AddOutcome::Tiled);
    assert_eq!(horizontal_limit(&t.tiles, &t.display), 960);
    assert_eq!(t.viewport.ribbon_offset_target, 0);

    t.pan_ribbon(Direction::Right, 1000);
    assert_eq!(t.viewport.ribbon_offset_target, 960);
    let first = t.viewport;

    t.pan_ribbon(Direction::Right, 1010);
    assert_eq!(t.viewport.ribbon_offset_target, 960);
    assert_eq!(t.viewport, first);
    assert!(in_bounds(&t));
}

#[test]
fn adding_next_to_the_focused_tile_shifts_its_right_neighbours() {
    let mut t = RibbonTiler::new(display(), 0);
    t.add_window(1, probe(), 1, 0);
    t.add_window(2, probe(), 2, 0);
    // Window 3 comes while tile 1 has the focus: the nearer edge of the focused tile's
    // centre (480) is the left edge of tile 1, the earliest of the two that are as near.
    assert_eq!(t.add_window(3, probe(), 1, 0), AddOutcome::Tiled);
    assert_eq!(span(&t, 3), (0, 960, 0));
    assert_eq!(span(&t, 1), (960, 1920, 0));
    assert_eq!(span(&t, 2), (1920, 2880, 0));
    assert!(t.needs_ribbon_recalc);
    assert!(t.animation_running);
    // The new tile enters; the tiles that moved are on their way.
    let entry = t.tiles[2].animation.unwrap();
    assert_eq!(entry.animation_type, AnimationType::Entry);
    assert_eq!(entry.target_rect, rect(20, 40, 940, 1040));
    assert_eq!(entry.start_time, 0);
    assert_eq!(t.tiles[0].animation.unwrap().animation_type, AnimationType::Move);
    assert_eq!(t.tiles[0].animation.unwrap().target_rect, rect(980, 40, 1900, 1040));
}

#[test]
fn adding_is_turned_away_for_a_managed_or_ineligible_window() {
    let mut t = RibbonTiler::new(display(), 0);
    assert_eq!(t.add_window(1, probe(), 1, 0), AddOutcome::Tiled);
    let before = t.tiles.clone();
    assert_eq!(t.add_window(1, probe(), 1, 5), AddOutcome::AlreadyManaged);
    assert_eq!(t.add_window(2, None, 2, 5), AddOutcome::Ineligible);
    let ineligible = Some(WindowProbe { eligible: false, ..probe().unwrap() });
    assert_eq!(t.add_window(2, ineligible, 2, 5), AddOutcome::Ineligible);
    assert_eq!(t.tiles, before);
    assert!(t.is_managed(1));
    assert!(!t.is_managed(2));
}

#[test]
fn a_popup_floats_and_is_tracked_once() {
    let mut t = RibbonTiler::new(display(), 0);
    assert_eq!(t.add_window(5, popup(), 5, 0), AddOutcome::Floating);
    assert_eq!(t.add_window(5, popup(), 5, 0), AddOutcome::Floating);
    assert!(t.tiles.is_empty());
    assert_eq!(t.floating_windows, vec![5]);
}

#[test]
fn adding_outside_the_viewport_centres_the_viewport_on_the_tile() {
    let mut t = tiler_with(vec![
        tile(1, 0, 0, TileSize::Full),
        tile(2, 1920, 0, TileSize::Full),
        tile(3, 3840, 0, TileSize::Full),
    ]);
    // Focus on tile 3, whose centre is at 4800; its edges are equally near, the left
    // one comes first: the new tile goes to 3840, outside the viewport at offset 0.
    assert_eq!(t.add_window(4, probe(), 3, 0), AddOutcome::Tiled);
    assert_eq!(span(&t, 4), (3840, 4800, 0));
    assert_eq!(span(&t, 3), (4800, 6720, 0));
    // Centre of the new tile less half a display: 3840 + 480 - 960.
    assert_eq!(t.viewport.ribbon_offset, 3360);
    assert_eq!(t.viewport.ribbon_offset_target, 3360);
    assert!(in_bounds(&t));
}

#[test]
fn the_recorded_geometry_of_a_window_astray_is_centred() {
    let mut t = RibbonTiler::new(display(), 0);
    let astray = Some(WindowProbe { rect: rect(5000, 100, 5800, 700), ..probe().unwrap() });
    t.add_window(1, astray, 1, 0);
    assert_eq!(t.tiles[0].saved.rect, rect(560, 240, 1360, 840));
    assert_eq!(t.tiles[0].saved.style, 0x14CF_0000);
    assert_eq!(t.tiles[0].saved.ex_style, 0x100);
}

#[test]
fn shrinking_leaves_a_gap_for_the_recalculation() {
    let mut t = tiler_with(vec![tile(1, 0, 0, TileSize::Full), tile(2, 1920, 0, TileSize::Half)]);
    t.resize_window(1, Direction::Left, None, 1, 0);
    assert_eq!(span(&t, 1), (0, 960, 0));
    assert_eq!(span(&t, 2), (1920, 2880, 0));
    assert!(t.needs_ribbon_recalc);
    // Every tile is sent to its place.
    assert!(t.tiles.iter().all(|tile| tile.animation.is_some()));
    let placements = t.recalculate_ribbon(10_000);
    assert_eq!(span(&t, 2), (960, 1920, 0));
    assert!(placements.is_empty());
}

#[test]
fn growing_pushes_only_the_tiles_that_start_past_the_old_end() {
    let mut t = tiler_with(vec![
        tile(1, 0, 0, TileSize::Half),
        tile(2, 500, 0, TileSize::Half),
        tile(3, 960, 0, TileSize::Half),
        tile(4, 960, 1, TileSize::Half),
    ]);
    t.resize_window(1, Direction::Right, None, 1, 0);
    assert_eq!(span(&t, 1), (0, 1920, 0));
    assert_eq!(span(&t, 2), (500, 1460, 0));
    assert_eq!(span(&t, 3), (1920, 2880, 0));
    assert_eq!(span(&t, 4), (960, 1920, 1));
}

#[test]
fn a_vertical_direction_does_not_resize() {
    let mut t = tiler_with(vec![tile(1, 0, 0, TileSize::Half)]);
    t.resize_window(1, Direction::Up, None, 1, 0);
    assert_eq!(span(&t, 1), (0, 960, 0));
}

#[test]
fn resizing_an_unmanaged_window_adds_it_first() {
    let mut t = RibbonTiler::new(display(), 0);
    t.resize_window(1, Direction::Right, probe(), 1, 0);
    assert_eq!(span(&t, 1), (0, 1920, 0));
    // A window that is turned away changes nothing.
    let mut u = RibbonTiler::new(display(), 0);
    u.resize_window(1, Direction::Right, None, 1, 0);
    assert!(u.tiles.is_empty());
    assert!(!u.animation_running);
}

#[test]
fn moving_right_into_a_neighbour_changes_places_with_it() {
    let mut t = tiler_with(vec![tile(1, 0, 0, TileSize::Half), tile(2, 960, 0, TileSize::Half)]);
    assert!(t.move_window(1, Direction::Right, 100));
    assert_eq!(span(&t, 1), (960, 1920, 0));
    assert_eq!(span(&t, 2), (0, 960, 0));
    // The viewport cannot follow: the ribbon is no wider than the display.
    assert_eq!(t.viewport.ribbon_offset, 0);
    assert!(t.tiles[0].animation.is_none());
    let glide = t.tiles[1].animation.unwrap();
    assert_eq!(glide.target_rect, rect(20, 40, 940, 1040));
    assert_eq!(glide.duration, 200);
    assert!(t.needs_ribbon_recalc);
}

#[test]
fn moving_right_into_free_space_takes_the_viewport_along() {
    let mut t = tiler_with(vec![
        tile(1, 0, 0, TileSize::Half),
        tile(2, 2880, 0, TileSize::Full),
    ]);
    assert!(t.move_window(1, Direction::Right, 100));
    assert_eq!(span(&t, 1), (960, 1920, 0));
    assert_eq!(t.viewport.ribbon_offset, 960);
    assert_eq!(t.viewport.ribbon_offset_target, 960);
    // Tile 2 glides from where the old viewport had it to where the new one puts it.
    let glide = t.tiles[1].animation.unwrap();
    assert_eq!(glide.start_rect, rect(2900, 40, 4780, 1040));
    assert_eq!(glide.target_rect, rect(1940, 40, 3820, 1040));
    assert!(in_bounds(&t));
}

#[test]
fn moving_left_stops_at_zero() {
    let mut t = tiler_with(vec![tile(1, 300, 0, TileSize::Half)]);
    assert!(t.move_window(1, Direction::Left, 0));
    assert_eq!(span(&t, 1), (0, 960, 0));
    assert!(!t.move_window(1, Direction::Left, 60));
    assert_eq!(span(&t, 1), (0, 960, 0));
}

#[test]
fn moving_an_unmanaged_window_does_nothing() {
    let mut t = tiler_with(vec![tile(1, 0, 0, TileSize::Half)]);
    assert!(!t.move_window(9, Direction::Right, 0));
    assert_eq!(span(&t, 1), (0, 960, 0));
    assert!(!t.animation_running);
}

#[test]
fn moving_down_makes_room_in_the_row_below() {
    let mut t = tiler_with(vec![
        tile(1, 0, 0, TileSize::Half),
        tile(2, 480, 1, TileSize::Half),
        tile(3, 960, 1, TileSize::Half),
        tile(4, 5000, 1, TileSize::Half),
    ]);
    assert!(t.move_window(1, Direction::Down, 0));
    assert_eq!(span(&t, 1), (0, 960, 1));
    // Tile 2 met the mover's interval and moved by its width; tile 3 starts at its end.
    assert_eq!(span(&t, 2), (1440, 2400, 1));
    assert_eq!(span(&t, 3), (960, 1920, 1));
    assert_eq!(span(&t, 4), (5000, 5960, 1));
    assert_eq!(t.viewport.current_row, 1);
    assert_eq!(t.viewport.vertical_offset, 1080);
    assert_eq!(t.viewport.vertical_offset_target, 1080);
    assert!(in_bounds(&t));
}

#[test]
fn moving_up_from_the_first_row_does_nothing() {
    let mut t = tiler_with(vec![tile(1, 0, 0, TileSize::Half)]);
    assert!(!t.move_window(1, Direction::Up, 0));
    assert_eq!(span(&t, 1), (0, 960, 0));
    assert_eq!(t.viewport.vertical_offset, 0);
}

#[test]
fn moving_up_to_an_empty_row_takes_the_viewport_up() {
    let mut t = tiler_with(vec![tile(1, 0, 1, TileSize::Half), tile(2, 0, 2, TileSize::Half)]);
    t.viewport.current_row = 1;
    t.viewport.vertical_offset = 1080;
    t.viewport.vertical_offset_target = 1080;
    assert!(t.move_window(1, Direction::Up, 0));
    assert_eq!(span(&t, 1), (0, 960, 0));
    assert_eq!(t.viewport.current_row, 0);
    assert_eq!(t.viewport.vertical_offset, 0);
}

#[test]
fn a_move_ends_the_transition_of_the_moved_tile() {
    let mut t = RibbonTiler::new(display(), 0);
    t.add_window(1, probe(), 1, 0);
    assert!(t.tiles[0].animation.is_some());
    assert!(!t.move_window(1, Direction::Up, 10));
    assert!(t.tiles[0].animation.is_none());
}

#[test]
fn removal_of_an_unmanaged_window_does_nothing() {
    let mut t = RibbonTiler::new(display(), 0);
    assert!(!t.remove_window(3, 0));
    assert!(!t.animation_running);
}

#[test]
fn removal_supersedes_a_transition_without_a_jump() {
    let mut t = RibbonTiler::new(display(), 0);
    t.add_window(1, probe(), 1, 0);
    let entry = t.tiles[0].animation.unwrap();
    assert!(t.remove_window(1, 100));
    let exit = t.tiles[0].animation.unwrap();
    assert_eq!(exit.start_rect, entry.sample(100));
    assert_eq!(exit.start_time, 100);
}

#[test]
fn recalculation_packs_every_row_and_is_idempotent() {
    let mut t = tiler_with(vec![
        tile(1, 500, 0, TileSize::Half),
        tile(2, 100, 0, TileSize::Full),
        tile(3, 3000, 0, TileSize::Half),
        tile(4, 960, 1, TileSize::Half),
    ]);
    t.needs_ribbon_recalc = true;
    let placements = t.recalculate_ribbon(777);
    assert_eq!(span(&t, 2), (0, 1920, 0));
    assert_eq!(span(&t, 1), (1920, 2880, 0));
    assert_eq!(span(&t, 3), (2880, 3840, 0));
    assert_eq!(span(&t, 4), (0, 960, 1));
    assert!(!t.needs_ribbon_recalc);
    assert_eq!(t.last_ribbon_recalc, 777);
    // The tiles at rest in the row in view that are within reach are put in place.
    assert_eq!(
        placements,
        vec![
            Placement { id: 1, rect: rect(1940, 40, 2860, 1040) },
            Placement { id: 2, rect: rect(20, 40, 1900, 1040) },
            Placement { id: 3, rect: rect(2900, 40, 3820, 1040) },
        ]
    );
    let once: Vec<RibbonPosition> = t.tiles.iter().map(|tile| tile.position).collect();
    t.recalculate_ribbon(900);
    let twice: Vec<RibbonPosition> = t.tiles.iter().map(|tile| tile.position).collect();
    assert_eq!(once, twice);
}

#[test]
fn recalculation_pulls_the_offset_back_within_the_new_limit() {
    let mut t = tiler_with(vec![tile(1, 0, 0, TileSize::Full), tile(2, 5000, 0, TileSize::Full)]);
    t.viewport.ribbon_offset = 4000;
    t.viewport.ribbon_offset_target = 4500;
    t.recalculate_ribbon(1);
    assert_eq!(span(&t, 2), (1920, 3840, 0));
    assert_eq!(t.viewport.ribbon_offset, 1920);
    assert_eq!(t.viewport.ribbon_offset_target, 1920);
    assert!(t.viewport.scroll_animation.is_none());
    assert!(in_bounds(&t));
}

#[test]
fn recalculation_without_tiles_leaves_the_viewport_at_the_origin() {
    let mut t = RibbonTiler::new(display(), 0);
    t.pan_row(Direction::Down, 0);
    assert_eq!(t.viewport.current_row, 1);
    let placements = t.recalculate_ribbon(5);
    assert!(placements.is_empty());
    assert_eq!(t.viewport.ribbon_offset, 0);
    assert_eq!(t.viewport.vertical_offset, 0);
    assert_eq!(t.viewport.vertical_offset_target, 0);
    assert_eq!(t.viewport.current_row, 1);
}

#[test]
fn the_idle_recalculation_waits_for_the_debounce() {
    let mut t = tiler_with(vec![tile(1, 500, 0, TileSize::Half)]);
    t.needs_ribbon_recalc = true;
    t.last_ribbon_recalc = 1000;
    assert!(!t.recalculation_due(1500));
    assert!(t.recalculation_due(1501));
    assert!(t.check_recalculation(1500, &Vec::new()).is_empty());
    assert_eq!(span(&t, 1), (500, 1460, 0));
    let placements = t.check_recalculation(1501, &Vec::new());
    assert_eq!(span(&t, 1), (0, 960, 0));
    assert_eq!(placements, vec![Placement { id: 1, rect: rect(20, 40, 940, 1040) }]);
    t.needs_ribbon_recalc = false;
    assert!(!t.recalculation_due(99_999));
}

#[test]
fn cleanup_drops_the_tiles_of_windows_that_are_gone() {
    let mut t = tiler_with(vec![
        tile(1, 0, 0, TileSize::Half),
        tile(2, 960, 0, TileSize::Half),
        tile(3, 1920, 0, TileSize::Half),
    ]);
    t.viewport.ribbon_offset = 960;
    t.viewport.ribbon_offset_target = 960;
    t.clean_closed_windows(&vec![3, 8]);
    assert_eq!(t.tiles.len(), 2);
    assert!(t.needs_ribbon_recalc);
    // The ribbon got shorter: the viewport is pulled back within the limits.
    assert_eq!(t.viewport.ribbon_offset, 0);
    assert!(in_bounds(&t));
    t.needs_ribbon_recalc = false;
    t.clean_minimized_windows(&vec![8]);
    assert!(!t.needs_ribbon_recalc);
    assert_eq!(t.tiles.len(), 2);
}

#[test]
fn scrolling_to_a_tile_centres_it() {
    let mut t = tiler_with(vec![
        tile(1, 0, 0, TileSize::Half),
        tile(2, 960, 0, TileSize::Half),
        tile(3, 1920, 1, TileSize::Half),
        tile(4, 2880, 0, TileSize::Half),
    ]);
    t.scroll_to_window(3, 50);
    assert_eq!(t.viewport.current_row, 1);
    assert_eq!(t.viewport.vertical_offset_target, 1080);
    // Centre of the tile (2400) less half a display.
    assert_eq!(t.viewport.ribbon_offset_target, 1440);
    let s = t.viewport.scroll_animation.unwrap();
    assert_eq!((s.start_x, s.start_y, s.target_x, s.target_y), (0, 0, 1440, 1080));
    assert!(t.animation_running);
    // The first tile cannot be centred: the target stops at zero.
    t.scroll_to_window(1, 60);
    assert_eq!(t.viewport.ribbon_offset_target, 0);
    let before = t.viewport;
    t.scroll_to_window(77, 70);
    assert_eq!(t.viewport, before);
}

#[test]
fn panning_an_empty_ribbon_does_nothing() {
    let mut t = RibbonTiler::new(display(), 0);
    t.pan_ribbon(Direction::Right, 0);
    assert!(t.viewport.scroll_animation.is_none());
    assert!(!t.animation_running);
}

#[test]
fn row_panning_allows_one_empty_row() {
    let mut t = tiler_with(vec![tile(1, 0, 0, TileSize::Half), tile(2, 0, 1, TileSize::Half)]);
    t.pan_row(Direction::Down, 0);
    assert_eq!(t.viewport.current_row, 1);
    assert_eq!(t.viewport.vertical_offset_target, 1080);
    // One row further is empty: the viewport scrolls there, and no further.
    t.pan_row(Direction::Down, 10);
    assert_eq!(t.viewport.current_row, 2);
    assert_eq!(t.viewport.vertical_offset_target, 2160);
    assert_eq!(t.viewport.scroll_animation.unwrap().target_y, 2160);
    assert_eq!(t.viewport.scroll_animation.unwrap().start_time, 10);
    let at_the_end = t.viewport;
    t.pan_row(Direction::Down, 20);
    assert_eq!(t.viewport, at_the_end);
    t.pan_row(Direction::Up, 30);
    assert_eq!(t.viewport.current_row, 1);
    assert_eq!(t.viewport.vertical_offset_target, 1080);
    t.pan_row(Direction::Up, 40);
    assert_eq!(t.viewport.current_row, 0);
    assert_eq!(t.viewport.vertical_offset_target, 0);
    let at_the_start = t.viewport;
    t.pan_row(Direction::Up, 50);
    assert_eq!(t.viewport, at_the_start);
    t.pan_row(Direction::Left, 60);
    assert_eq!(t.viewport, at_the_start);
    assert!(in_bounds(&t));
}

#[test]
fn the_viewport_arrives_at_the_empty_row() {
    let mut t = tiler_with(vec![tile(1, 0, 0, TileSize::Half)]);
    t.pan_row(Direction::Down, 1000);
    t.update_animations(1200);
    assert_eq!(t.viewport.current_row, 1);
    assert_eq!(t.viewport.vertical_offset, 1080);
    assert_eq!(t.viewport.vertical_offset_target, 1080);
    assert!(t.viewport.scroll_animation.is_none());
    assert!(in_bounds(&t));
}

#[test]
fn a_tile_added_in_the_empty_row_takes_the_viewport_there() {
    let mut t = tiler_with(vec![tile(1, 5000, 0, TileSize::Half)]);
    t.pan_row(Direction::Down, 0);
    assert_eq!(t.viewport.current_row, 1);
    assert_eq!(t.viewport.vertical_offset_target, 1080);
    t.viewport.ribbon_offset = 3000;
    t.viewport.ribbon_offset_target = 3000;
    assert_eq!(t.add_window(2, probe(), 2, 100), AddOutcome::Tiled);
    // The row was empty: the tile goes to the viewport's left edge, and shows.
    assert_eq!(span(&t, 2), (3000, 3960, 1));
    assert_eq!(t.viewport.vertical_offset, 0);
    // A tile that lies outside the viewport brings the viewport to its row.
    t.viewport.ribbon_offset = 0;
    t.viewport.ribbon_offset_target = 0;
    assert_eq!(t.add_window(3, probe(), 2, 200), AddOutcome::Tiled);
    assert_eq!(span(&t, 3), (3000, 3960, 1));
    assert_eq!(span(&t, 2), (3960, 4920, 1));
    assert_eq!(t.viewport.vertical_offset, 1080);
    assert_eq!(t.viewport.ribbon_offset, 2520);
    assert!(in_bounds(&t));
}

#[test]
fn opacity_saturates_at_both_ends() {
    let mut t = tiler_with(vec![tile(1, 0, 0, TileSize::Half)]);
    let placements = t.adjust_transparency(10);
    assert_eq!(t.transparency, 255);
    assert_eq!(placements, vec![Placement { id: 1, rect: rect(20, 40, 940, 1040) }]);
    t.adjust_transparency(-10);
    assert_eq!(t.transparency, 245);
    t.transparency = 55;
    t.adjust_transparency(-10);
    assert_eq!(t.transparency, 50);
    t.adjust_transparency(-128);
    assert_eq!(t.transparency, 50);
    t.adjust_transparency(127);
    assert_eq!(t.transparency, 177);
}

#[test]
fn margins_change_the_placements() {
    let mut t = tiler_with(vec![tile(1, 0, 0, TileSize::Half)]);
    let placements = t.adjust_margins(5);
    assert_eq!(t.margins, Margins { horizontal: 45, vertical: 90 });
    assert_eq!(placements, vec![Placement { id: 1, rect: rect(22, 45, 938, 1035) }]);
    assert_eq!(t.tiles[0].shown, rect(22, 45, 938, 1035));
}

#[test]
fn the_frame_rate_cycles() {
    let mut t = RibbonTiler::new(display(), 0);
    assert_eq!(t.animation_fps, 90);
    t.cycle_fps();
    assert_eq!(t.animation_fps, 120);
    t.cycle_fps();
    assert_eq!(t.animation_fps, 144);
    t.cycle_fps();
    assert_eq!(t.animation_fps, 60);
    t.cycle_fps();
    assert_eq!(t.animation_fps, 90);
    t.animation_fps = 75;
    t.cycle_fps();
    assert_eq!(t.animation_fps, 60);
}

#[test]
fn a_tick_after_a_scroll_lands_it_and_asks_for_focus() {
    let mut t = tiler_with(vec![
        tile(1, 0, 0, TileSize::Half),
        tile(2, 960, 0, TileSize::Half),
        tile(3, 1920, 0, TileSize::Half),
    ]);
    t.last_ribbon_recalc = 900;
    t.pan_ribbon(Direction::Right, 1000);
    let mid = t.update_animations(1100);
    assert_eq!(t.viewport.ribbon_offset, 840);
    assert_eq!(mid.focus, None);
    assert_eq!(
        mid.batch,
        vec![
            Placement { id: 1, rect: rect(-820, 40, 100, 1040) },
            Placement { id: 2, rect: rect(140, 40, 1060, 1040) },
            Placement { id: 3, rect: rect(1100, 40, 2020, 1040) },
        ]
    );
    assert!(t.animation_running);
    let end = t.update_animations(1200);
    assert_eq!(t.viewport.ribbon_offset, 960);
    assert!(t.viewport.scroll_animation.is_none());
    // At offset 960 tiles 2 and 3 are as near the middle; the earlier one is asked for.
    assert_eq!(end.focus, Some(2));
    assert_eq!(end.batch.len(), 3);
    assert!(!t.animation_running);
    // A scroll that ends makes a recalculation due, but the last one is too recent.
    assert!(t.needs_ribbon_recalc);
    assert!(end.settling.is_empty());
    // The next idle tick past the debounce recalculates.
    let later = t.update_animations(1401);
    assert!(!t.needs_ribbon_recalc);
    assert_eq!(later.settling.len(), 3);
    assert!(in_bounds(&t));
}

#[test]
fn a_tick_with_nothing_to_do_asks_for_nothing() {
    let mut t = tiler_with(vec![tile(1, 0, 0, TileSize::Half)]);
    let frame = t.update_animations(10);
    assert!(frame.batch.is_empty());
    assert!(frame.restorations.is_empty());
    assert!(frame.settling.is_empty());
    assert_eq!(frame.focus, None);
    assert_eq!(t.tiles[0].shown, rect(0, 0, 10, 10));
}

#[test]
fn a_change_of_resolution_lays_the_ribbon_out_again() {
    let mut t = tiler_with(vec![
        tile(1, 0, 0, TileSize::Half),
        tile(2, 960, 0, TileSize::Full),
        tile(3, 2880, 0, TileSize::Half),
        tile(4, 300, 1, TileSize::Half),
    ]);
    t.viewport.ribbon_offset = 960;
    t.viewport.ribbon_offset_target = 960;
    let small = Display { width: 1280, height: 720 };
    // Too soon after the last look: nothing happens.
    assert!(t.check_monitor_dimensions(999, small).is_empty());
    assert_eq!(t.display, display());
    assert_eq!(t.last_resolution_check, 0);
    let placements = t.check_monitor_dimensions(1000, small);
    assert_eq!(t.display, small);
    assert_eq!(t.last_resolution_check, 1000);
    assert_eq!(span(&t, 1), (0, 640, 0));
    assert_eq!(span(&t, 2), (640, 1920, 0));
    assert_eq!(span(&t, 3), (1920, 2560, 0));
    assert_eq!(span(&t, 4), (0, 640, 1));
    // The offset is scaled by 1280 / 1920.
    assert_eq!(t.viewport.ribbon_offset, 640);
    assert_eq!(t.viewport.ribbon_offset_target, 640);
    assert!(t.needs_ribbon_recalc);
    assert_eq!(placements.len(), 4);
    assert_eq!(placements[0], Placement { id: 1, rect: rect(-620, 40, -20, 680) });
    assert_eq!(placements[3], Placement { id: 4, rect: rect(-620, 760, -20, 1400) });
    // The same size again changes nothing but the time of the look.
    assert!(t.check_monitor_dimensions(2000, small).is_empty());
    assert_eq!(t.last_resolution_check, 2000);
    assert!(in_bounds(&t));
}

#[test]
fn shutdown_hands_every_window_back() {
    let mut t = RibbonTiler::new(display(), 0);
    t.add_window(1, probe(), 1, 0);
    let astray = Some(WindowProbe { rect: rect(5000, 100, 5800, 700), ..probe().unwrap() });
    t.add_window(2, astray, 2, 0);
    t.add_window(7, popup(), 7, 0);
    t.pan_row(Direction::Down, 0);
    let out = t.shutdown();
    assert_eq!(out.floating, vec![7]);
    assert_eq!(out.restorations.len(), 2);
    assert_eq!(out.restorations[0].id, 1);
    assert_eq!(out.restorations[0].rect, rect(100, 100, 900, 700));
    assert_eq!(out.restorations[0].saved.style, 0x14CF_0000);
    assert_eq!(out.restorations[1].id, 2);
    assert_eq!(out.restorations[1].rect, rect(560, 240, 1360, 840));
    assert!(t.tiles.is_empty());
    assert!(t.floating_windows.is_empty());
    assert_eq!(t.viewport.current_row, 0);
    assert_eq!(t.viewport.vertical_offset_target, 0);
    assert!(t.viewport.scroll_animation.is_none());
    assert!(!t.animation_running);
}

#[test]
fn the_offsets_stay_in_bounds_through_a_run_of_operations() {
    let mut t = RibbonTiler::new(display(), 0);
    let mut now: u64 = 0;
    for id in 1..=6 {
        now += 60;
        t.add_window(id, probe(), id - 1, now);
        assert!(in_bounds(&t));
    }
    for step in 0..40u64 {
        now += 37;
        match step % 8 {
            0 => t.pan_ribbon(Direction::Right, now),
            1 => {
                t.move_window(1 + (step as i64 % 6), Direction::Down, now);
            }
            2 => t.resize_window(1 + (step as i64 % 5), Direction::Left, None, 1, now),
            3 => t.pan_row(Direction::Down, now),
            4 => {
                t.remove_window(1 + (step as i64 % 6), now);
            }
            5 => {
                t.move_window(1 + (step as i64 % 6), Direction::Right, now);
            }
            6 => t.pan_ribbon(Direction::Left, now),
            _ => {
                t.move_window(1 + (step as i64 % 6), Direction::Up, now);
            }
        }
        assert!(in_bounds(&t), "after step {}", step);
        t.update_animations(now + 5);
        assert!(in_bounds(&t), "after the tick of step {}", step);
    }
    now += 10_000;
    t.update_animations(now);
    assert!(in_bounds(&t));
}

#[test]
fn the_throttle_lets_a_kind_through_again_after_fifty_milliseconds() {
    let mut throttle = Throttle::new();
    assert!(throttle.let_through(TilerCommand::CycleFPS, 1000));
    assert!(!throttle.let_through(TilerCommand::CycleFPS, 1000));
    assert!(!throttle.let_through(TilerCommand::CycleFPS, 1049));
    assert!(throttle.let_through(TilerCommand::CycleFPS, 1050));
    assert!(!throttle.let_through(TilerCommand::CycleFPS, 1099));
    assert!(throttle.let_through(TilerCommand::CycleFPS, 1101));
    // Another kind has its own time.
    assert!(throttle.let_through(TilerCommand::ForceRecalc, 1101));
    // A clock that went back lets nothing through.
    assert!(!throttle.let_through(TilerCommand::CycleFPS, 5));
}

#[test]
fn pans_are_never_throttled() {
    let mut throttle = Throttle::new();
    for command in [TilerCommand::PanLeft, TilerCommand::PanRight, TilerCommand::PanUp, TilerCommand::PanDown] {
        assert!(throttle.let_through(command, 1000));
        assert!(throttle.let_through(command, 1000));
        assert!(throttle.let_through(command, 1001));
    }
}

#[test]
fn a_cycle_executes_a_repeated_command_once() {
    let mut t = RibbonTiler::new(display(), 0);
    assert!(t.queue_command(TilerCommand::CycleFPS, 0, None, 1000));
    assert!(t.queue_command(TilerCommand::CycleFPS, 0, None, 1001));
    let report = t.process_command_queue(1002, &around(0));
    assert_eq!(report.dispositions, vec![Disposition::Done, Disposition::Throttled]);
    assert_eq!(t.animation_fps, 120);
    assert!(t.command_queue.is_empty());
    // Within fifty milliseconds of the dispatch: dropped.
    t.queue_command(TilerCommand::CycleFPS, 0, None, 1040);
    let report = t.process_command_queue(1051, &around(0));
    assert_eq!(report.dispositions, vec![Disposition::Throttled]);
    assert_eq!(t.animation_fps, 120);
    // Fifty-one milliseconds after the dispatch: carried out.
    t.queue_command(TilerCommand::CycleFPS, 0, None, 1052);
    let report = t.process_command_queue(1053, &around(0));
    assert_eq!(report.dispositions, vec![Disposition::Done]);
    assert_eq!(t.animation_fps, 144);
}

#[test]
fn a_cycle_takes_the_commands_in_the_order_of_arrival() {
    let mut t = RibbonTiler::new(display(), 0);
    let w1 = probe();
    t.queue_command(TilerCommand::AddWindow, 1, w1, 10);
    t.queue_command(TilerCommand::ResizeRight, 1, w1, 11);
    t.queue_command(TilerCommand::PanRight, 1, None, 12);
    t.queue_command(TilerCommand::MoveRight, 1, None, 13);
    let report = t.process_command_queue(20, &around(1));
    assert_eq!(report.dispositions, vec![Disposition::Done; 4]);
    // Added at 0, made full, then moved right by half a display.
    assert_eq!(span(&t, 1), (960, 2880, 0));
    assert_eq!(report.foreground, Some(1));
    assert_eq!(t.viewport.ribbon_offset, 960);
    assert!(in_bounds(&t));
}

#[test]
fn a_cycle_cleans_up_before_it_dispatches() {
    let mut t = tiler_with(vec![tile(1, 0, 0, TileSize::Half), tile(2, 960, 0, TileSize::Half)]);
    t.queue_command(TilerCommand::ScrollToWindow, 2, None, 0);
    t.queue_command(TilerCommand::RemoveWindow, 2, None, 0);
    let world = Surroundings { display: display(), foreground: 1, closed: vec![2], minimized: Vec::new() };
    let report = t.process_command_queue(5, &world);
    // The window is gone before its commands are looked at: they do nothing.
    assert_eq!(report.dispositions, vec![Disposition::Done, Disposition::Done]);
    assert_eq!(t.tiles.len(), 1);
    assert!(t.viewport.scroll_animation.is_none());
    assert!(t.tiles[0].animation.is_none());
}

#[test]
fn a_cycle_reports_popups_and_placements() {
    let mut t = tiler_with(vec![tile(1, 0, 0, TileSize::Half)]);
    t.queue_command(TilerCommand::AddWindow, 9, popup(), 0);
    t.queue_command(TilerCommand::IncreaseMargins, 0, None, 0);
    t.queue_command(TilerCommand::DecreaseTransparency, 0, None, 0);
    let report = t.process_command_queue(5, &around(9));
    assert_eq!(report.foreground, Some(9));
    assert_eq!(
        report.placements,
        vec![
            Placement { id: 1, rect: rect(22, 45, 938, 1035) },
            Placement { id: 1, rect: rect(22, 45, 938, 1035) },
        ]
    );
    assert_eq!(t.transparency, 245);
    assert_eq!(t.floating_windows, vec![9]);
}

#[test]
fn a_cycle_refuses_what_the_ribbon_has_no_room_for() {
    let mut t = tiler_with(vec![tile(1, 1_073_740_864, 0, TileSize::Half)]);
    t.viewport.ribbon_offset = 0;
    t.queue_command(TilerCommand::MoveRight, 1, None, 0);
    t.queue_command(TilerCommand::AddWindow, 2, probe(), 0);
    t.queue_command(TilerCommand::ResizeRight, 1, None, 0);
    t.queue_command(TilerCommand::ForceRecalc, 0, None, 0);
    t.queue_command(TilerCommand::MoveLeft, 1, None, 0);
    let report = t.process_command_queue(5, &around(1));
    assert_eq!(
        report.dispositions,
        vec![Disposition::Refused, Disposition::Refused, Disposition::Refused, Disposition::Done, Disposition::Done]
    );
    // After the recalculation the tile is at zero, and a move to the left has nowhere to go.
    assert_eq!(span(&t, 1), (0, 960, 0));
    assert_eq!(report.foreground, None);
}

#[test]
fn a_forced_recalculation_packs_at_once() {
    let mut t = tiler_with(vec![tile(1, 500, 0, TileSize::Half), tile(2, 3000, 0, TileSize::Half)]);
    t.queue_command(TilerCommand::ForceRecalc, 0, None, 0);
    let report = t.process_command_queue(1, &around(0));
    assert_eq!(span(&t, 1), (0, 960, 0));
    assert_eq!(span(&t, 2), (960, 1920, 0));
    assert_eq!(report.placements.len(), 2);
}

#[test]
fn the_queue_takes_no_more_than_its_capacity() {
    let mut t = RibbonTiler::new(display(), 0);
    for i in 0..1024u64 {
        assert!(t.queue_command(TilerCommand::PanLeft, 0, None, i));
    }
    assert!(!t.queue_command(TilerCommand::PanLeft, 0, None, 2000));
    assert_eq!(t.command_queue.len(), 1024);
    assert_eq!(t.command_queue[3].timestamp, 3);
    let report = t.process_command_queue(3000, &around(0));
    assert_eq!(report.dispositions.len(), 1024);
    assert!(t.queue_command(TilerCommand::PanLeft, 0, None, 3001));
}

#[test]
fn commands_travel_under_their_codes() {
    let all = [
        (TilerCommand::PanLeft, 0),
        (TilerCommand::PanRight, 1),
        (TilerCommand::PanUp, 2),
        (TilerCommand::PanDown, 3),
        (TilerCommand::ResizeLeft, 4),
        (TilerCommand::ResizeRight, 5),
        (TilerCommand::MoveUp, 6),
        (TilerCommand::MoveDown, 7),
        (TilerCommand::MoveLeft, 8),
        (TilerCommand::MoveRight, 9),
        (TilerCommand::AddWindow, 10),
        (TilerCommand::IncreaseTransparency, 14),
        (TilerCommand::DecreaseTransparency, 15),
        (TilerCommand::ScrollToWindow, 17),
        (TilerCommand::IncreaseMargins, 18),
        (TilerCommand::DecreaseMargins, 19),
        (TilerCommand::RemoveWindow, 20),
        (TilerCommand::CycleFPS, 21),
        (TilerCommand::ForceRecalc, 22),
    ];
    for (i, (command, code)) in all.iter().enumerate() {
        assert_eq!(command.code(), *code);
        assert_eq!(TilerCommand::from_code(*code), Some(*command));
        assert_eq!(command.index(), i);
        assert_eq!(command.is_pan_command(), i < 4);
    }
    for code in [11, 12, 13, 16, 23, 1000] {
        assert_eq!(TilerCommand::from_code(code), None);
    }
    assert_eq!(TilerCommand::MoveUp.direction(), Some(Direction::Up));
    assert_eq!(TilerCommand::ResizeLeft.direction(), Some(Direction::Left));
    assert_eq!(TilerCommand::AddWindow.direction(), None);
}

#[test]
fn the_next_free_position_is_past_the_row_in_view() {
    let mut t = tiler_with(vec![
        tile(1, 0, 0, TileSize::Half),
        tile(2, 960, 0, TileSize::Full),
        tile(3, 7000, 1, TileSize::Half),
    ]);
    assert_eq!(t.find_next_free_position(), RibbonPosition { x: 2880, row: 0, size: TileSize::Half });
    t.viewport.current_row = 1;
    assert_eq!(t.find_next_free_position(), RibbonPosition { x: 7960, row: 1, size: TileSize::Half });
    t.viewport.current_row = 2;
    assert_eq!(t.find_next_free_position(), RibbonPosition { x: 0, row: 2, size: TileSize::Half });
    let empty = RibbonTiler::new(display(), 0);
    assert_eq!(empty.find_next_free_position(), RibbonPosition { x: 0, row: 0, size: TileSize::Half });
}

#[test]
fn the_active_rows_come_in_ascending_order_each_once() {
    let t = tiler_with(vec![
        tile(1, 0, 3, TileSize::Half),
        tile(2, 960, 0, TileSize::Half),
        tile(3, 0, 3, TileSize::Half),
        tile(4, 0, 1, TileSize::Half),
        tile(5, 960, 1, TileSize::Half),
        tile(6, 0, 7, TileSize::Half),
    ]);
    assert_eq!(t.active_rows(), vec![0, 1, 3, 7]);
    assert!(RibbonTiler::new(display(), 0).active_rows().is_empty());
}

#[test]
fn a_single_tile_is_sent_or_put_in_its_place() {
    let mut t = tiler_with(vec![tile(1, 0, 0, TileSize::Half), tile(2, 960, 0, TileSize::Half)]);
    assert_eq!(t.apply_window_position(2, false, 0), Some(Placement { id: 2, rect: rect(980, 40, 1900, 1040) }));
    assert_eq!(t.tiles[1].shown, rect(980, 40, 1900, 1040));
    assert!(t.tiles[1].animation.is_none());
    assert_eq!(t.apply_window_position(2, true, 30), None);
    let mv = t.tiles[1].animation.unwrap();
    assert_eq!(mv.animation_type, AnimationType::Move);
    assert_eq!(mv.start_rect, rect(980, 40, 1900, 1040));
    assert_eq!(mv.duration, 87);
    assert!(t.animation_running);
    assert!(t.tiles[0].animation.is_none());
    // A window that is no tile: nothing happens.
    assert_eq!(t.apply_window_position(9, false, 0), None);
    t.apply_window_position_with_animation_type(1, AnimationType::Entry, 40);
    assert_eq!(t.tiles[0].animation.unwrap().animation_type, AnimationType::Entry);
}

#[test]
fn a_tile_out_of_reach_is_not_put() {
    let mut t = tiler_with(vec![tile(1, 50_000, 0, TileSize::Half)]);
    assert_eq!(t.apply_window_position(1, false, 0), None);
    assert_eq!(t.tiles[0].shown, rect(0, 0, 10, 10));
}

#[test]
fn the_periodic_check_waits_while_anything_is_in_transition() {
    let mut t = tiler_with(vec![tile(1, 500, 0, TileSize::Half), tile(2, 3000, 0, TileSize::Half)]);
    t.needs_ribbon_recalc = true;
    t.apply_window_position(2, true, 10_000);
    assert!(!t.is_idle());
    assert!(t.check_recalculation(10_050, &Vec::new()).is_empty());
    assert_eq!(span(&t, 1), (500, 1460, 0));
    // The move has run its length; the tick ends it and recalculates at once.
    let frame = t.update_animations(10_100);
    assert!(t.is_idle());
    assert_eq!(span(&t, 1), (0, 960, 0));
    assert_eq!(span(&t, 2), (960, 1920, 0));
    assert_eq!(frame.settling.len(), 2);
}

#[test]
fn the_periodic_check_drops_closed_windows_even_when_nothing_is_due() {
    let mut t = tiler_with(vec![tile(1, 0, 0, TileSize::Half), tile(2, 960, 0, TileSize::Half)]);
    t.last_ribbon_recalc = 1000;
    assert!(t.check_recalculation(1100, &vec![1]).is_empty());
    assert_eq!(t.tiles.len(), 1);
    assert!(t.needs_ribbon_recalc);
    assert_eq!(span(&t, 2), (960, 1920, 0));
    let placements = t.check_recalculation(1600, &Vec::new());
    assert_eq!(span(&t, 2), (0, 960, 0));
    assert_eq!(placements.len(), 1);
}

#[test]
fn a_cycle_drops_minimized_windows_in_its_cleanup_pass() {
    let mut t = tiler_with(vec![tile(1, 0, 0, TileSize::Half), tile(2, 960, 0, TileSize::Half)]);
    t.queue_command(TilerCommand::PanLeft, 0, None, 0);
    let world = Surroundings { display: display(), foreground: 1, closed: Vec::new(), minimized: vec![1] };
    t.process_command_queue(5, &world);
    assert_eq!(t.tiles.len(), 1);
    assert_eq!(t.tiles[0].id, 2);
    assert!(t.needs_ribbon_recalc);
}

#[test]
fn a_removal_in_a_cycle_leaves_the_recalculation_for_later() {
    let mut t = tiler_with(vec![
        tile(1, 0, 0, TileSize::Half),
        tile(2, 960, 0, TileSize::Half),
        tile(3, 5000, 0, TileSize::Half),
    ]);
    t.needs_ribbon_recalc = true;
    t.queue_command(TilerCommand::RemoveWindow, 2, None, 0);
    let report = t.process_command_queue(1000, &around(2));
    assert_eq!(report.dispositions, vec![Disposition::Done]);
    assert!(report.placements.is_empty());
    // Nothing has moved yet: the tile is leaving, and the gaps stay until it has left.
    assert_eq!(span(&t, 3), (5000, 5960, 0));
    assert_eq!(t.tiles.len(), 3);
    assert!(t.animation_running);
    let frame = t.update_animations(1200);
    assert_eq!(frame.restorations.len(), 1);
    assert_eq!(t.tiles.len(), 2);
    assert_eq!(span(&t, 3), (960, 1920, 0));
}

fn rows_apart(t: &RibbonTiler) -> bool {
    for (i, a) in t.tiles.iter().enumerate() {
        for b in t.tiles.iter().skip(i + 1) {
            if a.position.row == b.position.row {
                let a_end = a.position.x + t.display.get_tile_width(a.position.size);
                let b_end = b.position.x + t.display.get_tile_width(b.position.size);
                if !(a_end <= b.position.x || b_end <= a.position.x) {
                    return false;
                }
            }
        }
    }
    true
}

#[test]
fn adding_and_resizing_never_make_tiles_overlap() {
    let mut t = RibbonTiler::new(display(), 0);
    let mut now: u64 = 0;
    for id in 1..=7 {
        now += 100;
        // The focus alternates between the new window and an older tile.
        let foreground = if id % 2 == 0 { id } else { (id / 2).max(1) };
        assert_eq!(t.add_window(id, probe(), foreground, now), AddOutcome::Tiled);
        assert!(rows_apart(&t), "after adding {}", id);
        if id % 3 == 0 {
            t.pan_row(Direction::Down, now);
        }
    }
    for id in [3, 1, 6, 3, 7, 2, 2] {
        now += 100;
        t.resize_window(id, Direction::Left, None, id, now);
        assert!(rows_apart(&t), "after resizing {}", id);
    }
    t.recalculate_ribbon(now + 1000);
    assert!(rows_apart(&t));
    assert!(in_bounds(&t));
}

#[test]
fn a_move_into_free_space_or_with_an_equal_keeps_tiles_apart() {
    let mut t = tiler_with(vec![
        tile(1, 0, 0, TileSize::Half),
        tile(2, 960, 0, TileSize::Half),
        tile(3, 3840, 0, TileSize::Full),
        tile(4, 0, 1, TileSize::Half),
    ]);
    // Changes places with an equal.
    assert!(t.move_window(1, Direction::Right, 0));
    assert!(rows_apart(&t));
    // Steps into free space.
    assert!(t.move_window(1, Direction::Right, 100));
    assert_eq!(span(&t, 1), (1920, 2880, 0));
    assert!(rows_apart(&t));
    // Goes down to where nothing is in its way.
    assert!(t.move_window(1, Direction::Down, 200));
    assert_eq!(span(&t, 1), (1920, 2880, 1));
    assert!(rows_apart(&t));
}

#[test]
fn a_move_that_pushes_tiles_aside_may_leave_an_overlap_for_the_recalculation() {
    let mut t = tiler_with(vec![
        tile(1, 0, 0, TileSize::Half),
        tile(2, 480, 1, TileSize::Half),
        tile(3, 1440, 1, TileSize::Half),
    ]);
    assert!(t.move_window(1, Direction::Down, 0));
    // Tile 2 was pushed onto tile 3.
    assert_eq!(span(&t, 2), (1440, 2400, 1));
    assert_eq!(span(&t, 3), (1440, 2400, 1));
    assert!(!rows_apart(&t));
    t.recalculate_ribbon(10_000);
    assert!(rows_apart(&t));
    assert_eq!(span(&t, 1), (0, 960, 1));
    assert_eq!(span(&t, 2), (960, 1920, 1));
    assert_eq!(span(&t, 3), (1920, 2880, 1));
}

#[test]
fn a_full_tile_moved_left_changes_places_with_a_half_tile_end_to_end() {
    let mut t = tiler_with(vec![tile(1, 0, 0, TileSize::Half), tile(2, 960, 0, TileSize::Full)]);
    assert!(t.move_window(2, Direction::Left, 0));
    assert_eq!(span(&t, 2), (0, 1920, 0));
    assert_eq!(span(&t, 1), (1920, 2880, 0));
    assert!(rows_apart(&t));
    // And back again.
    assert!(t.move_window(2, Direction::Right, 100));
    assert_eq!(span(&t, 1), (0, 960, 0));
    assert_eq!(span(&t, 2), (960, 2880, 0));
    assert!(rows_apart(&t));
}

#[test]
fn changing_places_touches_the_tile_and_one_neighbour_only() {
    let mut t = tiler_with(vec![
        tile(1, 0, 0, TileSize::Full),
        tile(2, 2000, 0, TileSize::Half),
        tile(3, 2960, 0, TileSize::Half),
        tile(4, 960, 1, TileSize::Half),
    ]);
    // Tile 1 aims at [960, 2880), which meets tiles 2 and 3; it changes places with
    // its neighbour, tile 2, and tile 3 stays.
    assert!(t.move_window(1, Direction::Right, 0));
    assert_eq!(span(&t, 2), (0, 960, 0));
    assert_eq!(span(&t, 1), (960, 2880, 0));
    assert_eq!(span(&t, 3), (2960, 3920, 0));
    assert_eq!(span(&t, 4), (960, 1920, 1));
    assert!(rows_apart(&t));
    // The viewport follows the moved tile as far as it can.
    assert_eq!(t.viewport.ribbon_offset, 960);
}

#[test]
fn moving_left_changes_places_with_the_left_neighbour() {
    let mut t = tiler_with(vec![
        tile(1, 0, 0, TileSize::Half),
        tile(2, 1000, 0, TileSize::Full),
        tile(3, 3000, 0, TileSize::Half),
    ]);
    // Tile 3 aims at [2040, 3000), which meets tile 2.
    assert!(t.move_window(3, Direction::Left, 0));
    assert_eq!(span(&t, 3), (1000, 1960, 0));
    assert_eq!(span(&t, 2), (1960, 3880, 0));
    assert_eq!(span(&t, 1), (0, 960, 0));
    assert!(rows_apart(&t));
}

#[test]
fn horizontal_moves_never_make_tiles_overlap() {
    let mut t = tiler_with(vec![
        tile(1, 0, 0, TileSize::Half),
        tile(2, 960, 0, TileSize::Full),
        tile(3, 2880, 0, TileSize::Half),
        tile(4, 4000, 0, TileSize::Full),
        tile(5, 7000, 0, TileSize::Half),
    ]);
    let mut now: u64 = 0;
    for step in 0..60i64 {
        now += 10;
        let id = 1 + (step * 7 + step / 5) % 5;
        let direction = if (step / 3) % 2 == 0 { Direction::Right } else { Direction::Left };
        t.move_window(id, direction, now);
        assert!(rows_apart(&t), "after step {}", step);
        assert!(t.tiles.iter().all(|tile| tile.position.x >= 0 && tile.position.row == 0));
        assert!(in_bounds(&t));
    }
}

#[test]
fn a_tick_that_takes_a_tile_away_recalculates_at_once() {
    let mut t = tiler_with(vec![tile(1, 0, 0, TileSize::Full), tile(2, 1920, 0, TileSize::Half)]);
    assert!(t.remove_window(2, 0));
    assert_eq!(t.last_ribbon_recalc, 0);
    let frame = t.update_animations(200);
    assert_eq!(frame.restorations.len(), 1);
    assert_eq!(frame.restorations[0].id, 2);
    assert_eq!(frame.restorations[0].rect, rect(100, 100, 900, 700));
    assert_eq!(t.tiles.len(), 1);
    assert_eq!(span(&t, 1), (0, 1920, 0));
    assert!(!t.needs_ribbon_recalc);
    assert_eq!(t.last_ribbon_recalc, 200);
    assert_eq!(horizontal_limit(&t.tiles, &t.display), 0);
    assert_eq!(t.viewport.ribbon_offset, 0);
    assert!(!t.animation_running);
    assert_eq!(frame.settling, vec![Placement { id: 1, rect: rect(20, 40, 1900, 1040) }]);
}

#[test]
fn a_tick_that_takes_a_tile_away_closes_the_gap_it_leaves() {
    let mut t = tiler_with(vec![
        tile(1, 0, 0, TileSize::Half),
        tile(2, 960, 0, TileSize::Half),
        tile(3, 1920, 0, TileSize::Half),
    ]);
    t.last_ribbon_recalc = 900;
    assert!(t.remove_window(1, 1000));
    t.update_animations(1100);
    assert_eq!(t.tiles.len(), 3);
    t.update_animations(1200);
    // Less than the debounce since the last recalculation, and yet the rows are packed.
    assert_eq!(t.tiles.len(), 2);
    assert_eq!(span(&t, 2), (0, 960, 0));
    assert_eq!(span(&t, 3), (960, 1920, 0));
    assert!(!t.needs_ribbon_recalc);
}

#[test]
fn the_last_tile_taken_away_leaves_nothing_to_recalculate() {
    let mut t = tiler_with(vec![tile(1, 500, 0, TileSize::Half)]);
    assert!(t.remove_window(1, 0));
    let frame = t.update_animations(200);
    assert!(t.tiles.is_empty());
    assert!(frame.settling.is_empty());
    assert!(!t.needs_ribbon_recalc);
    assert!(!t.animation_running);
}

#[test]
fn an_entry_that_has_run_its_length_lands_exactly_at_its_target() {
    let mut t = RibbonTiler::new(display(), 0);
    assert_eq!(t.add_window(1, probe(), 1, 10), AddOutcome::Tiled);
    let entry = t.tiles[0].animation.unwrap();
    assert_eq!(entry.animation_type, AnimationType::Entry);
    assert_eq!(entry.target_rect, rect(20, 40, 940, 1040));
    let early = t.update_animations(10 + entry.duration - 1);
    assert_eq!(early.batch.len(), 1);
    assert!(t.tiles[0].animation.is_some());
    let frame = t.update_animations(10 + entry.duration);
    assert_eq!(frame.batch, vec![Placement { id: 1, rect: rect(20, 40, 940, 1040) }]);
    assert!(frame.restorations.is_empty());
    assert!(t.tiles[0].animation.is_none());
    assert_eq!(t.tiles[0].shown, rect(20, 40, 940, 1040));
    assert_eq!(span(&t, 1), (0, 960, 0));
}

#[test]
fn an_exit_that_has_run_its_length_takes_no_other_tile_along() {
    let mut t = tiler_with(vec![tile(1, 0, 0, TileSize::Half), tile(2, 960, 0, TileSize::Half)]);
    assert!(t.remove_window(1, 1000));
    assert_eq!(t.add_window(3, probe(), 2, 1100), AddOutcome::Tiled);
    let frame = t.update_animations(1200);
    assert_eq!(frame.restorations.len(), 1);
    assert_eq!(frame.restorations[0].id, 1);
    assert_eq!(frame.restorations[0].rect, rect(100, 100, 900, 700));
    assert_eq!(t.tiles.len(), 2);
    assert!(t.tiles.iter().all(|tile| tile.id != 1));
    assert!(t.tiles.iter().any(|tile| tile.id == 2));
    // The tile that came in the meantime is still on its way in.
    let entering = t.tiles.iter().find(|tile| tile.id == 3).unwrap();
    assert_eq!(entering.animation.unwrap().animation_type, AnimationType::Entry);
    assert!(rows_apart(&t));
    assert!(!t.needs_ribbon_recalc);
}

#[test]
fn a_scroll_under_way_stays_between_its_start_and_its_target() {
    let mut t = tiler_with(vec![
        tile(1, 0, 0, TileSize::Half),
        tile(2, 960, 0, TileSize::Half),
        tile(3, 1920, 0, TileSize::Half),
    ]);
    t.last_ribbon_recalc = 900;
    t.pan_ribbon(Direction::Right, 1000);
    assert_eq!(t.viewport.ribbon_offset_target, 960);
    let mut last: i32 = 0;
    let mut now: u64 = 1000;
    while now < 1200 {
        t.update_animations(now);
        assert!(last <= t.viewport.ribbon_offset && t.viewport.ribbon_offset <= 960);
        assert_eq!(t.viewport.vertical_offset, 0);
        assert!(t.viewport.scroll_animation.is_some());
        last = t.viewport.ribbon_offset;
        now += 7;
    }
    t.update_animations(1200);
    assert_eq!((t.viewport.ribbon_offset, t.viewport.ribbon_offset_target), (960, 960));
    assert!(t.viewport.scroll_animation.is_none());
}

#[test]
fn a_command_dropped_in_the_middle_of_a_queue_changes_nothing() {
    let mut t = tiler_with(vec![
        tile(1, 0, 0, TileSize::Half),
        tile(2, 960, 0, TileSize::Half),
        tile(3, 1920, 0, TileSize::Half),
    ]);
    t.queue_command(TilerCommand::CycleFPS, 0, None, 1000);
    t.queue_command(TilerCommand::PanRight, 0, None, 1001);
    t.queue_command(TilerCommand::CycleFPS, 0, None, 1002);
    t.queue_command(TilerCommand::PanLeft, 0, None, 1003);
    t.queue_command(TilerCommand::PanRight, 0, None, 1004);
    let report = t.process_command_queue(1010, &around(0));
    assert_eq!(
        report.dispositions,
        vec![
            Disposition::Done,
            Disposition::Done,
            Disposition::Throttled,
            Disposition::Done,
            Disposition::Done,
        ]
    );
    // The frame rate went one step, not two; the pans all counted.
    assert_eq!(t.animation_fps, 120);
    assert_eq!(t.viewport.ribbon_offset_target, 960);
    assert!(in_bounds(&t));
}

#[test]
fn a_move_to_a_row_with_room_behind_the_tile_in_the_way_keeps_tiles_apart() {
    let mut t = tiler_with(vec![
        tile(1, 960, 0, TileSize::Half),
        tile(2, 0, 1, TileSize::Half),
        tile(3, 960, 1, TileSize::Half),
        tile(4, 2880, 1, TileSize::Full),
    ]);
    assert!(t.move_window(1, Direction::Down, 0));
    // Tile 3 was in the way and went right by the width of tile 1, up to tile 4.
    assert_eq!(span(&t, 1), (960, 1920, 1));
    assert_eq!(span(&t, 2), (0, 960, 1));
    assert_eq!(span(&t, 3), (1920, 2880, 1));
    assert_eq!(span(&t, 4), (2880, 4800, 1));
    assert!(rows_apart(&t));
}

#[test]
fn a_tile_in_the_way_that_starts_further_left_is_left_overlapping() {
    let mut t = tiler_with(vec![tile(1, 960, 0, TileSize::Half), tile(2, 0, 1, TileSize::Full)]);
    assert!(t.move_window(1, Direction::Down, 0));
    assert_eq!(span(&t, 1), (960, 1920, 1));
    assert_eq!(span(&t, 2), (960, 2880, 1));
    assert!(!rows_apart(&t));
    t.recalculate_ribbon(10_000);
    assert!(rows_apart(&t));
}

#[test]
fn the_ticker_stops_where_the_recalculation_ends_the_last_scroll() {
    let mut t = tiler_with(vec![tile(1, 0, 0, TileSize::Full), tile(2, 1920, 0, TileSize::Full)]);
    t.viewport.ribbon_offset = 1920;
    t.viewport.ribbon_offset_target = 1120;
    t.viewport.scroll_animation = Some(ScrollAnimation {
        start_x: 1920,
        start_y: 0,
        target_x: 1120,
        target_y: 0,
        start_time: 100,
        duration: 200,
    });
    assert!(t.remove_window(1, 0));
    t.animation_running = true;
    let frame = t.update_animations(200);
    // The exit has ended; the scroll was half way, and closing the gap took the limit
    // under it.
    assert_eq!(frame.restorations.len(), 1);
    assert_eq!(t.tiles.len(), 1);
    assert_eq!(span(&t, 2), (0, 1920, 0));
    assert_eq!((t.viewport.ribbon_offset, t.viewport.ribbon_offset_target), (0, 0));
    assert!(t.viewport.scroll_animation.is_none());
    assert!(t.tiles[0].animation.is_none());
    assert!(t.is_idle());
    assert!(!t.animation_running);
    assert!(!t.needs_ribbon_recalc);
}

#[test]
fn the_ticker_goes_on_while_a_scroll_is_under_way() {
    let mut t = tiler_with(vec![
        tile(1, 0, 0, TileSize::Full),
        tile(2, 1920, 0, TileSize::Full),
        tile(3, 3840, 0, TileSize::Full),
    ]);
    t.pan_ribbon(Direction::Right, 100);
    assert!(t.remove_window(3, 0));
    assert!(t.animation_running);
    t.update_animations(200);
    // The exit has ended and the rows were packed, but the scroll has not arrived.
    assert_eq!(t.tiles.len(), 2);
    assert!(t.viewport.scroll_animation.is_some());
    assert!(t.animation_running);
    t.update_animations(300);
    assert!(t.viewport.scroll_animation.is_none());
    assert!(!t.animation_running);
}

#[test]
fn a_recalculation_without_tiles_is_a_recalculation() {
    let mut t = RibbonTiler::new(display(), 0);
    t.reflow_ribbon();
    assert!(t.recalculation_due(501));
    let placements = t.recalculate_ribbon(501);
    assert!(placements.is_empty());
    assert!(!t.needs_ribbon_recalc);
    assert_eq!(t.last_ribbon_recalc, 501);
    assert!(!t.recalculation_due(2000));
}

#[test]
fn adding_prepares_the_new_tile_and_the_tiles_that_made_room() {
    let mut t = tiler_with(vec![
        tile(1, 0, 0, TileSize::Half),
        tile(2, 960, 0, TileSize::Half),
        tile(4, 0, 1, TileSize::Half),
    ]);
    // With tile 2 in focus, the new tile goes to its left edge at 960.
    t.queue_command(TilerCommand::AddWindow, 3, probe(), 0);
    let report = t.process_command_queue(5, &around(2));
    assert_eq!(span(&t, 3), (960, 1920, 0));
    assert_eq!(span(&t, 2), (1920, 2880, 0));
    assert_eq!(span(&t, 1), (0, 960, 0));
    // Tile 1 stayed and tile 4 is in another row.
    assert_eq!(report.styles.prepared, vec![2, 3]);
    assert!(report.styles.tinted.is_empty());
}

#[test]
fn a_move_a_removal_and_a_recalculation_prepare_nothing() {
    let mut t = tiler_with(vec![tile(1, 0, 0, TileSize::Half), tile(2, 960, 0, TileSize::Half)]);
    t.queue_command(TilerCommand::MoveRight, 1, None, 0);
    t.queue_command(TilerCommand::RemoveWindow, 2, None, 0);
    t.queue_command(TilerCommand::ForceRecalc, 0, None, 0);
    t.queue_command(TilerCommand::PanRight, 0, None, 0);
    t.queue_command(TilerCommand::CycleFPS, 0, None, 0);
    let report = t.process_command_queue(5, &around(1));
    assert_eq!(report.dispositions, vec![Disposition::Done; 5]);
    assert!(report.styles.prepared.is_empty());
    assert!(report.styles.tinted.is_empty());
}

#[test]
fn a_resize_and_a_change_of_the_margins_prepare_every_tile() {
    let mut t = tiler_with(vec![tile(1, 0, 0, TileSize::Half), tile(2, 0, 1, TileSize::Half)]);
    t.queue_command(TilerCommand::ResizeRight, 2, None, 0);
    let report = t.process_command_queue(5, &around(1));
    assert_eq!(report.styles.prepared, vec![1, 2]);
    t.queue_command(TilerCommand::DecreaseMargins, 0, None, 100);
    let report = t.process_command_queue(100, &around(1));
    assert_eq!(report.styles.prepared, vec![1, 2]);
    assert!(report.styles.tinted.is_empty());
    // A resize of a window that is turned away prepares nothing.
    t.queue_command(TilerCommand::ResizeLeft, 7, None, 200);
    let report = t.process_command_queue(200, &around(1));
    assert!(report.styles.prepared.is_empty());
    // A resize of a window that becomes a tile first prepares it with the others.
    t.queue_command(TilerCommand::ResizeLeft, 7, probe(), 300);
    let report = t.process_command_queue(300, &around(1));
    assert_eq!(report.styles.prepared, vec![1, 2, 7]);
}

#[test]
fn a_change_of_the_opacity_goes_to_every_tile_and_every_floating_window() {
    let mut t = tiler_with(vec![tile(1, 0, 0, TileSize::Half)]);
    // While the tiles are opaque, a window that comes to float is left as it is.
    t.queue_command(TilerCommand::AddWindow, 8, popup(), 0);
    let report = t.process_command_queue(0, &around(1));
    assert!(report.styles.tinted.is_empty());
    assert!(report.styles.prepared.is_empty());
    t.queue_command(TilerCommand::DecreaseTransparency, 0, None, 100);
    t.queue_command(TilerCommand::AddWindow, 9, popup(), 100);
    t.queue_command(TilerCommand::DecreaseTransparency, 0, None, 100);
    let report = t.process_command_queue(100, &around(1));
    assert_eq!(
        report.dispositions,
        vec![Disposition::Done, Disposition::Done, Disposition::Throttled]
    );
    assert_eq!(t.transparency, 245);
    assert_eq!(report.styles.prepared, vec![1]);
    // Window 8 with the change; window 9 as it comes, the tiles being translucent now.
    assert_eq!(report.styles.tinted, vec![8, 9]);
    // A window that floats already is not given the opacity again.
    t.queue_command(TilerCommand::AddWindow, 9, popup(), 200);
    let report = t.process_command_queue(200, &around(1));
    assert!(report.styles.tinted.is_empty());
}

#[test]
fn a_change_of_the_display_prepares_every_tile() {
    let mut t = tiler_with(vec![tile(1, 0, 0, TileSize::Half), tile(2, 960, 0, TileSize::Half)]);
    let mut smaller = around(1);
    smaller.display = Display { width: 1280, height: 720 };
    // Too soon after the last look at the display.
    let report = t.process_command_queue(500, &smaller);
    assert!(report.styles.prepared.is_empty());
    let report = t.process_command_queue(1000, &smaller);
    assert_eq!(t.display, Display { width: 1280, height: 720 });
    assert_eq!(report.styles.prepared, vec![1, 2]);
    assert_eq!(report.placements.len(), 2);
    // The same display again: nothing to prepare.
    let report = t.process_command_queue(2000, &smaller);
    assert!(report.styles.prepared.is_empty());
}

#[test]
fn only_an_opacity_below_the_full_one_is_translucent() {
    assert!(!is_translucent(255));
    assert!(is_translucent(254));
    assert!(is_translucent(50));
    assert_eq!(OPAQUE, 255);
}

#[test]
fn a_ribbon_without_room_takes_no_tile_and_lets_none_grow_or_move() {
    let mut t = tiler_with(vec![tile(1, 1_073_740_864, 0, TileSize::Half)]);
    t.viewport.ribbon_offset = 0;
    let before = t.tiles.clone();
    assert_eq!(t.add_window(2, probe(), 1, 0), AddOutcome::NoRoom);
    assert_eq!(t.tiles, before);
    assert!(!t.move_window(1, Direction::Left, 0));
    assert_eq!(t.tiles, before);
    t.resize_window(1, Direction::Right, None, 1, 0);
    assert_eq!(t.tiles, before);
    assert!(!t.animation_running);
    // A popup needs no room on the ribbon.
    assert_eq!(t.add_window(3, popup(), 1, 0), AddOutcome::Floating);
    assert_eq!(t.floating_windows, vec![3]);
    assert!(in_bounds(&t));
}
