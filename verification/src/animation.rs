//! Transitions of tiles and of the viewport, and the pace at which they are driven.

use vstd::prelude::*;
use crate::easing::{ease_out_cubic, eased_numerator, cube, grow, grown, interpolate, lerp, Eased,
    MAX_DURATION_MS};
use crate::geometry::{div_toward_zero, Rect, MAX_EXTENT};

verus! {

/// Length of the transition that brings a new tile in.
pub const ENTRY_DURATION_MS: u64 = 200;

/// Length of the transition that takes a removed tile back to where it came from.
pub const EXIT_DURATION_MS: u64 = 200;

/// Length of the transition of a tile that is repositioned on its own.
pub const MOVE_DURATION_MS: u64 = 87;

/// Length of the transition of every other tile when one tile is moved and the viewport
/// follows it.
pub const GLIDE_DURATION_MS: u64 = 200;

/// Length of a viewport scroll.
pub const SCROLL_DURATION_MS: u64 = 200;

/// The ticker's interval while a run of transitions is young.
pub const BASE_TICK_MS: u64 = 16;

/// How long a run of transitions counts as young.
pub const STEADY_TICK_SPAN_MS: u64 = 200;

/// The most that is ever added to the base interval.
pub const MAX_TICK_GROWTH_MS: u64 = 4;

/// The least time between two recalculations that nobody asked for.
pub const RECALC_DEBOUNCE_MS: u64 = 500;

/// The kinds of transition a tile can be in.
#[derive(Clone, Copy, Debug, PartialEq, Eq, Structural)]
pub enum AnimationType {
    /// From one resting place to another.
    Move,
    /// Growing into place about the target's centre.
    Entry,
    /// Leaving for the rectangle the window had before it was managed.
    Exit,
}

/// A tile in transition.
#[derive(Clone, Copy, Debug, PartialEq, Eq, Structural)]
pub struct AnimationState {
    pub start_rect: Rect,
    pub target_rect: Rect,
    pub start_time: u64,
    pub duration: u64,
    pub animation_type: AnimationType,
}

/// The viewport in transition, both offsets at once.
#[derive(Clone, Copy, Debug, PartialEq, Eq, Structural)]
pub struct ScrollAnimation {
    pub start_x: i32,
    pub start_y: i32,
    pub target_x: i32,
    pub target_y: i32,
    pub start_time: u64,
    pub duration: u64,
}

/// Milliseconds from `start` to `now`, zero if `now` is the earlier.
pub open spec fn elapsed_between(start: u64, now: u64) -> int {
    if now >= start {
        now - start
    } else {
        0
    }
}

/// Milliseconds from `start` to `now`, zero if `now` is the earlier.
pub fn elapsed_since(start: u64, now: u64) -> (e: u64)
    ensures
        e == elapsed_between(start, now),
{
    if now >= start {
        now - start
    } else {
        0
    }
}

/// A rectangle a fraction of the way from `start` to `target`, each edge on its own.
pub open spec fn blend(start: Rect, target: Rect, num: int, den: int) -> Rect {
    Rect {
        left: interpolate(start.left as int, target.left as int, num, den) as i32,
        top: interpolate(start.top as int, target.top as int, num, den) as i32,
        right: interpolate(start.right as int, target.right as int, num, den) as i32,
        bottom: interpolate(start.bottom as int, target.bottom as int, num, den) as i32,
    }
}

/// The target scaled about its centre, from a tenth of its size to all of it.
pub open spec fn unfold(target: Rect, num: int, den: int) -> Rect {
    let center_x = div_toward_zero(target.left + target.right, 2);
    let center_y = div_toward_zero(target.top + target.bottom, 2);
    let half_width = div_toward_zero(grown(target.width(), num, den), 2);
    let half_height = div_toward_zero(grown(target.height(), num, den), 2);
    Rect {
        left: (center_x - half_width) as i32,
        top: (center_y - half_height) as i32,
        right: (center_x + half_width) as i32,
        bottom: (center_y + half_height) as i32,
    }
}

fn blend_rects(start: &Rect, target: &Rect, t: &Eased) -> (r: Rect)
    requires
        t.valid(),
        start.bounded(),
        target.bounded(),
    ensures
        r == blend(*start, *target, t.num as int, t.den as int),
        r.bounded(),
{
    Rect {
        left: lerp(start.left, target.left, t),
        top: lerp(start.top, target.top, t),
        right: lerp(start.right, target.right, t),
        bottom: lerp(start.bottom, target.bottom, t),
    }
}

fn unfold_rect(target: &Rect, t: &Eased) -> (r: Rect)
    requires
        t.valid(),
        target.bounded(),
    ensures
        r == unfold(*target, t.num as int, t.den as int),
        r.bounded(),
{
    let center_x: i64 = (target.left as i64 + target.right as i64) / 2;
    let center_y: i64 = (target.top as i64 + target.bottom as i64) / 2;
    let width: i64 = grow(target.right as i64 - target.left as i64, t);
    let height: i64 = grow(target.bottom as i64 - target.top as i64, t);
    let half_width: i64 = width / 2;
    let half_height: i64 = height / 2;
    Rect {
        left: (center_x - half_width) as i32,
        top: (center_y - half_height) as i32,
        right: (center_x + half_width) as i32,
        bottom: (center_y + half_height) as i32,
    }
}

impl AnimationState {
    /// Both rectangles lie within bounds, and the duration can be sampled.
    pub open spec fn valid(self) -> bool {
        &&& self.start_rect.bounded()
        &&& self.target_rect.bounded()
        &&& self.duration <= MAX_DURATION_MS
    }

    /// The transition has run its full length at `now`.
    pub open spec fn finished(self, now: u64) -> bool {
        elapsed_between(self.start_time, now) >= self.duration
    }

    /// The rectangle of the tile at `now`: the target once the duration has passed, and
    /// before that the eased blend (for an entry, the eased unfolding of the target).
    pub open spec fn rect_at(self, now: u64) -> Rect {
        if self.finished(now) {
            self.target_rect
        } else {
            let num = eased_numerator(elapsed_between(self.start_time, now), self.duration as int);
            let den = cube(self.duration as int);
            match self.animation_type {
                AnimationType::Entry => unfold(self.target_rect, num, den),
                _ => blend(self.start_rect, self.target_rect, num, den),
            }
        }
    }

    /// Whether the transition has run its full length at `now`.
    pub fn is_finished(&self, now: u64) -> (b: bool)
        ensures
            b == self.finished(now),
    {
        elapsed_since(self.start_time, now) >= self.duration
    }

    /// Samples the transition. From the end of its duration on, the sample is the target
    /// rectangle itself.
    pub fn sample(&self, now: u64) -> (r: Rect)
        requires
            self.valid(),
        ensures
            r == self.rect_at(now),
            r.bounded(),
            self.finished(now) ==> r == self.target_rect,
    {
        let elapsed: u64 = elapsed_since(self.start_time, now);
        if elapsed >= self.duration {
            self.target_rect
        } else {
            let t: Eased = ease_out_cubic(elapsed, self.duration);
            match self.animation_type {
                AnimationType::Entry => unfold_rect(&self.target_rect, &t),
                _ => blend_rects(&self.start_rect, &self.target_rect, &t),
            }
        }
    }
}

impl ScrollAnimation {
    /// All four offsets lie on the ribbon, and the duration can be sampled.
    pub open spec fn valid(self) -> bool {
        &&& 0 <= self.start_x <= MAX_EXTENT
        &&& 0 <= self.start_y <= MAX_EXTENT
        &&& 0 <= self.target_x <= MAX_EXTENT
        &&& 0 <= self.target_y <= MAX_EXTENT
        &&& self.duration <= MAX_DURATION_MS
    }

    /// The scroll has run its full length at `now`.
    pub open spec fn finished(self, now: u64) -> bool {
        elapsed_between(self.start_time, now) >= self.duration
    }

    /// The two offsets at `now`: the targets once the duration has passed, and before
    /// that both eased by the same progress.
    pub open spec fn offsets_at(self, now: u64) -> (int, int) {
        if self.finished(now) {
            (self.target_x as int, self.target_y as int)
        } else {
            let num = eased_numerator(elapsed_between(self.start_time, now), self.duration as int);
            let den = cube(self.duration as int);
            (
                interpolate(self.start_x as int, self.target_x as int, num, den),
                interpolate(self.start_y as int, self.target_y as int, num, den),
            )
        }
    }

    /// Whether the scroll has run its full length at `now`.
    pub fn is_finished(&self, now: u64) -> (b: bool)
        ensures
            b == self.finished(now),
    {
        elapsed_since(self.start_time, now) >= self.duration
    }

    /// Samples both offsets. From the end of the duration on, they are the targets.
    pub fn sample(&self, now: u64) -> (r: (i32, i32))
        requires
            self.valid(),
        ensures
            (r.0 as int, r.1 as int) == self.offsets_at(now),
            0 <= r.0 <= MAX_EXTENT,
            0 <= r.1 <= MAX_EXTENT,
            self.finished(now) ==> r.0 == self.target_x && r.1 == self.target_y,
    {
        let elapsed: u64 = elapsed_since(self.start_time, now);
        if elapsed >= self.duration {
            (self.target_x, self.target_y)
        } else {
            let t: Eased = ease_out_cubic(elapsed, self.duration);
            (lerp(self.start_x, self.target_x, &t), lerp(self.start_y, self.target_y, &t))
        }
    }
}

/// How long the ticker sleeps after `elapsed_ms` of one run of transitions: the base
/// interval while the run is young, then one millisecond more for every further tenth
/// of a second, up to the cap.
pub open spec fn tick_interval(elapsed_ms: u64) -> int {
    if elapsed_ms < STEADY_TICK_SPAN_MS {
        BASE_TICK_MS as int
    } else {
        let extra = (elapsed_ms - STEADY_TICK_SPAN_MS) / 100;
        if extra < MAX_TICK_GROWTH_MS {
            BASE_TICK_MS + extra
        } else {
            BASE_TICK_MS + MAX_TICK_GROWTH_MS
        }
    }
}

/// How long the ticker sleeps after `elapsed_ms` of one run of transitions.
pub fn ticker_interval(elapsed_ms: u64) -> (interval: u64)
    ensures
        interval == tick_interval(elapsed_ms),
        BASE_TICK_MS <= interval <= BASE_TICK_MS + MAX_TICK_GROWTH_MS,
{
    if elapsed_ms < STEADY_TICK_SPAN_MS {
        BASE_TICK_MS
    } else {
        let extra: u64 = (elapsed_ms - STEADY_TICK_SPAN_MS) / 100;
        if extra < MAX_TICK_GROWTH_MS {
            BASE_TICK_MS + extra
        } else {
            BASE_TICK_MS + MAX_TICK_GROWTH_MS
        }
    }
}

/// Whether the ticker, having last asked for a recalculation check at `last_check`,
/// asks again at `now`.
pub fn recalc_check_due(last_check: u64, now: u64) -> (due: bool)
    ensures
        due == (elapsed_between(last_check, now) > RECALC_DEBOUNCE_MS),
{
    elapsed_since(last_check, now) > RECALC_DEBOUNCE_MS
}

/// A value on the way from `start` to `end` lies between the two.
pub proof fn lemma_interpolate_between(start: int, end: int, num: int, den: int)
    requires
        0 <= num <= den,
        0 < den,
    ensures
        start <= end ==> start <= interpolate(start, end, num, den) <= end,
        end <= start ==> end <= interpolate(start, end, num, den) <= start,
{
    if end >= start {
        crate::easing::lemma_scaled_within(end - start, num, den);
        assert(0 <= (end - start) * num) by (nonlinear_arith)
            requires
                0 <= end - start,
                0 <= num,
        ;
    } else {
        crate::easing::lemma_scaled_within(start - end, num, den);
        assert((end - start) * num == -((start - end) * num)) by (nonlinear_arith);
        assert(0 <= (start - end) * num) by (nonlinear_arith)
            requires
                0 <= start - end,
                0 <= num,
        ;
    }
}

/// A length that grows toward `full` lies between zero and `full`.
pub proof fn lemma_grown_between(full: int, num: int, den: int)
    requires
        0 <= num <= den,
        0 < den,
    ensures
        full >= 0 ==> 0 <= grown(full, num, den) <= full,
        full <= 0 ==> full <= grown(full, num, den) <= 0,
{
    if full >= 0 {
        crate::easing::lemma_scaled_within(full, den + 9 * num, 10 * den);
        assert(0 <= full * (den + 9 * num)) by (nonlinear_arith)
            requires
                0 <= full,
                0 <= den + 9 * num,
        ;
    } else {
        crate::easing::lemma_scaled_within(-full, den + 9 * num, 10 * den);
        assert(full * (den + 9 * num) == -((-full) * (den + 9 * num))) by (nonlinear_arith);
        assert(0 <= (-full) * (den + 9 * num)) by (nonlinear_arith)
            requires
                0 <= -full,
                0 <= den + 9 * num,
        ;
    }
}

/// A transition under way has its tile within bounds.
pub proof fn lemma_sample_bounded(a: AnimationState, now: u64)
    requires
        a.valid(),
        !a.finished(now),
    ensures
        a.rect_at(now).bounded(),
{
    let elapsed = elapsed_between(a.start_time, now);
    let num = eased_numerator(elapsed, a.duration as int);
    let den = cube(a.duration as int);
    crate::easing::lemma_cube_monotonic(a.duration - elapsed, a.duration as int);
    crate::easing::lemma_cube_positive(a.duration as int);
    match a.animation_type {
        AnimationType::Entry => {
            lemma_grown_between(a.target_rect.width(), num, den);
            lemma_grown_between(a.target_rect.height(), num, den);
        },
        _ => {
            lemma_interpolate_between(a.start_rect.left as int, a.target_rect.left as int, num, den);
            lemma_interpolate_between(a.start_rect.top as int, a.target_rect.top as int, num, den);
            lemma_interpolate_between(a.start_rect.right as int, a.target_rect.right as int, num, den);
            lemma_interpolate_between(a.start_rect.bottom as int, a.target_rect.bottom as int, num, den);
        },
    }
}

} // verus!
