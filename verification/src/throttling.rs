//! What the throttle means for commands that come in one processing cycle after
//! another.

use vstd::prelude::*;
use crate::commands::{admits, noted, QueuedCommand, Surroundings, TilerCommand, WindowProbe,
    COMMAND_KINDS, THROTTLE_MS};
use crate::animation::elapsed_between;
use crate::dispatch::{Disposition, Trace, MARGIN_STEP, TRANSPARENCY_STEP};
use crate::geometry::Direction;
use crate::layout::tile_index;
use crate::model::TilerState;

verus! {

/// Whether two states have the same throttle table and the same queue.
pub open spec fn same_dispatching(a: TilerState, b: TilerState) -> bool {
    a.throttle == b.throttle && a.queue == b.queue
}

proof fn lemma_added_frame(s: TilerState, id: i64, probe: Option<WindowProbe>, foreground: i64, now: u64)
    ensures
        same_dispatching(s.added(id, probe, foreground, now), s),
{
}

proof fn lemma_resized_frame(
    s: TilerState,
    id: i64,
    direction: Direction,
    probe: Option<WindowProbe>,
    foreground: i64,
    now: u64,
)
    ensures
        same_dispatching(s.resized(id, direction, probe, foreground, now), s),
{
    lemma_added_frame(s, id, probe, foreground, now);
    let added = s.added(id, probe, foreground, now);
    assert(same_dispatching(added.toggled(id, direction), added));
    assert(same_dispatching(s.toggled(id, direction), s));
}

proof fn lemma_moved_frame(s: TilerState, id: i64, direction: Direction, now: u64)
    ensures
        same_dispatching(s.moved(id, direction, now), s),
{
    let still = s.stilled(id);
    assert(same_dispatching(still, s));
    let i = tile_index(s.tiles, id);
    assert(same_dispatching(still.after_row_move(i, direction), still));
    assert(same_dispatching(still.after_step(i, direction), still));
}

/// Carrying out a command leaves the throttle's table and the queue as they are.
pub proof fn lemma_execution_frame(s: TilerState, q: QueuedCommand, now: u64, foreground: i64)
    ensures
        s.executed(q, now, foreground).throttle == s.throttle,
        s.executed(q, now, foreground).queue == s.queue,
{
    reveal(TilerState::executed);
    if s.has_room_for(q) {
        match q.command {
            TilerCommand::ResizeLeft => lemma_resized_frame(
                s,
                q.hwnd,
                Direction::Left,
                q.probe,
                foreground,
                now,
            ),
            TilerCommand::ResizeRight => lemma_resized_frame(
                s,
                q.hwnd,
                Direction::Right,
                q.probe,
                foreground,
                now,
            ),
            TilerCommand::MoveUp => lemma_moved_frame(s, q.hwnd, Direction::Up, now),
            TilerCommand::MoveDown => lemma_moved_frame(s, q.hwnd, Direction::Down, now),
            TilerCommand::MoveLeft => lemma_moved_frame(s, q.hwnd, Direction::Left, now),
            TilerCommand::MoveRight => lemma_moved_frame(s, q.hwnd, Direction::Right, now),
            TilerCommand::AddWindow => lemma_added_frame(s, q.hwnd, q.probe, foreground, now),
            TilerCommand::PanLeft => {
                assert(same_dispatching(s.panned(Direction::Left, now), s));
            },
            TilerCommand::PanRight => {
                assert(same_dispatching(s.panned(Direction::Right, now), s));
            },
            TilerCommand::PanUp => {
                assert(same_dispatching(s.row_panned(Direction::Up, now), s));
            },
            TilerCommand::PanDown => {
                assert(same_dispatching(s.row_panned(Direction::Down, now), s));
            },
            TilerCommand::IncreaseTransparency => {
                assert(same_dispatching(s.transparency_adjusted(TRANSPARENCY_STEP), s));
            },
            TilerCommand::DecreaseTransparency => {
                assert(same_dispatching(s.transparency_adjusted(-TRANSPARENCY_STEP as i8), s));
            },
            TilerCommand::ScrollToWindow => {
                assert(same_dispatching(s.scrolled_to(q.hwnd, now), s));
            },
            TilerCommand::IncreaseMargins => {
                assert(same_dispatching(s.margins_adjusted(MARGIN_STEP), s));
            },
            TilerCommand::DecreaseMargins => {
                assert(same_dispatching(s.margins_adjusted(-MARGIN_STEP as i32), s));
            },
            TilerCommand::RemoveWindow => {
                assert(same_dispatching(s.removed(q.hwnd, now), s));
            },
            TilerCommand::CycleFPS => {
                assert(same_dispatching(s.fps_cycled(), s));
            },
            TilerCommand::ForceRecalc => {
                assert(same_dispatching(s.recalculated(now), s));
            },
        }
    }
}

/// What the throttle does to a command at any place of a queue, whatever the cycle has
/// come to before it. The command is dropped exactly if it is no pan and a command of
/// its kind was dispatched less than `THROTTLE_MS` before. A command that is dropped
/// changes nothing: not the state, not the time its kind was last dispatched, not what
/// the cycle has gathered. A command that is dispatched has the time of its kind set to
/// `now`. Either way, the times of all other kinds stay as they are.
pub proof fn lemma_step_throttle(trace: Trace, q: QueuedCommand, now: u64, foreground: i64)
    requires
        trace.state.throttle.len() == COMMAND_KINDS,
    ensures
        ({
            let last = trace.state.throttle[q.command.slot()];
            let after = trace.step(q, now, foreground);
            let dropped = !q.command.is_pan() && last.is_some() && elapsed_between(last.unwrap(), now)
                < THROTTLE_MS;
            &&& after.dispositions == trace.dispositions.push(after.dispositions.last())
            &&& (after.dispositions.last() == Disposition::Throttled) == dropped
            &&& dropped ==> after.state == trace.state && after.placements == trace.placements
                && after.foreground == trace.foreground
            &&& !dropped ==> after.state.throttle[q.command.slot()] == Some(now) && after.state
                == (TilerState {
                throttle: noted(trace.state.throttle, q.command, now),
                ..trace.state
            }).executed(q, now, foreground)
            &&& after.state.throttle.len() == COMMAND_KINDS
            &&& forall|other: TilerCommand|
                other != q.command ==> after.state.throttle[#[trigger] other.slot()]
                    == trace.state.throttle[other.slot()]
        }),
{
    reveal(Trace::step);
    let noted_state = TilerState {
        throttle: noted(trace.state.throttle, q.command, now),
        ..trace.state
    };
    lemma_execution_frame(noted_state, q, now, foreground);
    let after = trace.step(q, now, foreground);
    assert forall|other: TilerCommand| other != q.command implies after.state.throttle[
        #[trigger] other.slot()] == trace.state.throttle[other.slot()] by {
        crate::commands::lemma_codes_distinct(other, q.command);
    }
    if admits(trace.state.throttle[q.command.slot()], q.command, now) {
        assert(after.dispositions == trace.dispositions.push(noted_state.disposition_of(q)));
    } else {
        assert(after.dispositions == trace.dispositions.push(Disposition::Throttled));
    }
}

/// In a processing cycle, what has become of the first `n + 1` commands is what had
/// become of the first `n`, with the next command of the queue taken as
/// `lemma_step_throttle` says.
pub proof fn lemma_cycle_takes_commands_in_turn(s: TilerState, now: u64, around: Surroundings, n: int)
    requires
        s.wf(),
        around.display.valid(),
        0 <= n < s.queue.len(),
    ensures
        s.cycle_start(now, around).run(s.queue, n + 1, now, around.foreground) == s.cycle_start(
            now,
            around,
        ).run(s.queue, n, now, around.foreground).step(s.queue[n], now, around.foreground),
        s.cycle_start(now, around).run(s.queue, n, now, around.foreground).state.throttle.len()
            == COMMAND_KINDS,
        s.cycle_start(now, around).run(s.queue, n, now, around.foreground).dispositions.len() == n,
    decreases n,
{
    let start = s.cycle_start(now, around);
    let q = QueuedCommand { command: TilerCommand::PanLeft, hwnd: 0, timestamp: now, probe: None };
    crate::upkeep::lemma_consistency_is_kept(s, now, around, q);
    let taken = TilerState { queue: Seq::empty(), ..s };
    crate::upkeep::lemma_resolution_consistent(taken, now, around.display);
    crate::consistency::lemma_cleaned_consistent(
        taken.resolution_checked(now, around.display),
        around.closed@,
    );
    crate::consistency::lemma_cleaned_consistent(
        taken.resolution_checked(now, around.display).cleaned(around.closed@),
        around.minimized@,
    );
    crate::upkeep::lemma_run_consistent(start, s.queue, n, now, around.foreground);
    if n > 0 {
        lemma_cycle_takes_commands_in_turn(s, now, around, n - 1);
        lemma_step_throttle(
            start.run(s.queue, n - 1, now, around.foreground),
            s.queue[n - 1],
            now,
            around.foreground,
        );
    }
}

/// A cycle that holds a single command dispatches it exactly if the throttle lets it
/// through, notes the dispatch in the throttle's table, and leaves the queue empty.
pub proof fn lemma_single_command_cycle(s: TilerState, q: QueuedCommand, now: u64, around: Surroundings)
    requires
        s.queue == seq![q],
        s.throttle.len() == COMMAND_KINDS,
    ensures
        s.cycle(now, around).dispositions.len() == 1,
        (s.cycle(now, around).dispositions[0] == Disposition::Throttled) <==> !admits(
            s.throttle[q.command.slot()],
            q.command,
            now,
        ),
        s.cycle(now, around).state.throttle == noted(s.throttle, q.command, now),
        s.cycle(now, around).state.queue == Seq::<QueuedCommand>::empty(),
{
    reveal(Trace::step);
    let start = s.cycle_start(now, around);
    assert(start.state.throttle == s.throttle);
    assert(start.state.queue == Seq::<QueuedCommand>::empty());
    assert(s.queue.len() == 1);
    assert(s.queue[0] == q);
    assert(start.run(s.queue, 0, now, around.foreground) == start);
    assert(s.cycle(now, around) == start.step(q, now, around.foreground)) by {
        assert(start.run(s.queue, 1, now, around.foreground) == start.run(
            s.queue,
            0,
            now,
            around.foreground,
        ).step(s.queue[0], now, around.foreground));
    }
    let noted_state = TilerState { throttle: noted(s.throttle, q.command, now), ..start.state };
    lemma_execution_frame(noted_state, q, now, around.foreground);
    if admits(s.throttle[q.command.slot()], q.command, now) {
        assert(start.step(q, now, around.foreground).dispositions == start.dispositions.push(
            noted_state.disposition_of(q),
        ));
    } else {
        assert(start.step(q, now, around.foreground).dispositions == start.dispositions.push(
            Disposition::Throttled,
        ));
    }
}

/// Of two commands of one kind other than a pan, each alone in its cycle, the second is
/// dropped exactly if less than `THROTTLE_MS` lie between the two cycles, given that
/// the first was dispatched. Issued within that time, the two are carried out once;
/// issued further apart, both are.
pub proof fn lemma_repeated_command(
    s: TilerState,
    first_command: QueuedCommand,
    second_command: QueuedCommand,
    first: u64,
    second: u64,
    first_around: Surroundings,
    second_around: Surroundings,
)
    requires
        s.queue == seq![first_command],
        s.throttle.len() == COMMAND_KINDS,
        first_command.command == second_command.command,
        !first_command.command.is_pan(),
        first <= second,
        s.cycle(first, first_around).dispositions[0] != Disposition::Throttled,
    ensures
        ({
            let between = s.cycle(first, first_around).state.queued(second_command);
            (between.cycle(second, second_around).dispositions[0] == Disposition::Throttled) <==> second
                - first < THROTTLE_MS
        }),
{
    lemma_single_command_cycle(s, first_command, first, first_around);
    let between = s.cycle(first, first_around).state.queued(second_command);
    assert(between.queue == seq![second_command]) by {
        assert(Seq::<QueuedCommand>::empty().push(second_command) =~= seq![second_command]);
    }
    lemma_single_command_cycle(between, second_command, second, second_around);
}

/// A pan is dispatched in whatever cycle it comes.
pub proof fn lemma_pan_is_dispatched(s: TilerState, q: QueuedCommand, now: u64, around: Surroundings)
    requires
        s.queue == seq![q],
        s.throttle.len() == COMMAND_KINDS,
        q.command.is_pan(),
    ensures
        s.cycle(now, around).dispositions[0] == Disposition::Done,
{
    lemma_single_command_cycle(s, q, now, around);
    reveal(Trace::step);
    let start = s.cycle_start(now, around);
    assert(start.run(s.queue, 0, now, around.foreground) == start);
    assert(s.cycle(now, around) == start.step(q, now, around.foreground)) by {
        assert(start.run(s.queue, 1, now, around.foreground) == start.run(
            s.queue,
            0,
            now,
            around.foreground,
        ).step(s.queue[0], now, around.foreground));
    }
}

} // verus!
