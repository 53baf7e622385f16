//! A ribbon tiler: windows arranged as tiles on a scrollable strip of several rows, with
//! every structural change played as an interpolated transition.
//!
//! The library computes; it never touches a window. Whoever owns the dispatch loop
//! tells it what the display and the windows look like and what time it is, in
//! milliseconds of a clock that never goes back, and does to the windows what the
//! library returns: placements to commit, windows to hand back, the window to focus.
//!
//! The tiler is specified as a state machine. `model` holds its state as plain
//! mathematical values together with what every operation makes of it; `tiler` and the
//! modules beside it hold the executable operations, each proved to do exactly that.
//!
//! * `geometry`: rectangles, tile sizes, the mapping from ribbon to screen.
//! * `easing`, `animation`: cubic ease-out in exact integer arithmetic, transitions of
//!   tiles and of the viewport, the pace of the ticker.
//! * `layout`, `packing`, `arrange`, `rows`: the tiles, the packing that closes the
//!   gaps of every row, and the shifts and searches that adding and moving rely on.
//! * `viewport`: the scroll offsets, their targets and their limits.
//! * `schedule`: starting and advancing the transitions of the tiles, focus-follow.
//! * `commands`, `keys`, `styles`, `eligibility`: the commands, the keys bound to them,
//!   the style bits of a window, and which windows may be managed.
//! * `tiler`, `placing`, `reshape`, `resolution`, `ticking`, `dispatch`: the operations
//!   of the tiler.
//! * `styling`: which windows a processing cycle has made fit to be tiles, or given the
//!   opacity of the tiles.
//! * `laws`, `landing`, `disjoint`, `throttling`, `consistency`, `upkeep`: what holds of
//!   the tiler in every state and through every operation.

pub mod geometry;
pub mod easing;
pub mod animation;
pub mod scan;
pub mod layout;
pub mod packing;
pub mod arrange;
pub mod rows;
pub mod viewport;
pub mod commands;
pub mod keys;
pub mod styles;
pub mod eligibility;
pub mod schedule;
pub mod model;
pub mod tiler;
pub mod placing;
pub mod reshape;
pub mod resolution;
pub mod ticking;
pub mod dispatch;
pub mod styling;
pub mod laws;
pub mod landing;
pub mod disjoint;
pub mod throttling;
pub mod consistency;
pub mod upkeep;
