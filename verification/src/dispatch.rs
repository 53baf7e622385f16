//! The command processor: the queue of commands, and the cycle that drains it.

use vstd::prelude::*;
use crate::arrange::has_room;
use crate::commands::{admits, noted, QueuedCommand, Surroundings, TilerCommand, WindowProbe};
use crate::geometry::Direction;
use crate::model::{AddOutcome, TilerState};
use crate::schedule::{placements_of, Placement};
use crate::styling::{StyleWork, Styling};
use crate::tiler::RibbonTiler;

verus! {

/// By how much one command changes the opacity.
pub const TRANSPARENCY_STEP: i8 = 10;

/// By how much one command changes the horizontal margin; the vertical margin changes
/// by twice as much.
pub const MARGIN_STEP: i32 = 5;

/// The most commands that wait in the queue at once.
pub const QUEUE_CAPACITY: usize = 1024;

/// What became of a command in a processing cycle.
#[derive(Clone, Copy, Debug, PartialEq, Eq, Structural)]
pub enum Disposition {
    /// Dropped: a command of its kind was dispatched less than `THROTTLE_MS` before.
    Throttled,
    /// Dispatched, but not carried out: the ribbon has no room for what it asks.
    Refused,
    /// Dispatched and carried out.
    Done,
}

/// What carrying out one command asks of the windowing side.
pub struct Executed {
    pub disposition: Disposition,
    /// Rectangles to set, one by one.
    pub placements: Vec<Placement>,
    /// The window to bring to the foreground.
    pub foreground: Option<i64>,
    /// The windows whose look is to be changed.
    pub styles: StyleWork,
}

/// What a processing cycle asks of the windowing side.
pub struct CycleReport {
    /// What became of each command, in the order of their arrival.
    pub dispositions: Vec<Disposition>,
    /// Rectangles to set, one by one, in the order in which they came up.
    pub placements: Vec<Placement>,
    /// The window to bring to the foreground: the one that the last command with such
    /// a wish named.
    pub foreground: Option<i64>,
    /// The windows whose look is to be changed, in the order in which they came up.
    pub styles: StyleWork,
}

/// A processing cycle under way: the state reached, and what was asked for so far.
pub struct Trace {
    pub state: TilerState,
    pub dispositions: Seq<Disposition>,
    pub placements: Seq<Placement>,
    pub foreground: Option<i64>,
}

impl TilerState {
    /// A resize of the window finds the room it may need.
    pub open spec fn can_resize(self, id: i64, probe: Option<WindowProbe>) -> bool {
        has_room(self.tiles, self.display) && (self.add_outcome(id, probe) == AddOutcome::Tiled
            ==> self.can_add())
    }

    /// Whether the ribbon has room for what a command asks. Only adding, resizing and
    /// moving a tile need room.
    pub open spec fn has_room_for(self, q: QueuedCommand) -> bool {
        match q.command {
            TilerCommand::AddWindow => self.add_outcome(q.hwnd, q.probe) == AddOutcome::Tiled
                ==> self.can_add(),
            TilerCommand::ResizeLeft | TilerCommand::ResizeRight => self.can_resize(q.hwnd, q.probe),
            TilerCommand::MoveUp | TilerCommand::MoveDown | TilerCommand::MoveLeft
            | TilerCommand::MoveRight => has_room(self.tiles, self.display),
            _ => true,
        }
    }

    /// What becomes of a dispatched command.
    pub open spec fn disposition_of(self, q: QueuedCommand) -> Disposition {
        if self.has_room_for(q) {
            Disposition::Done
        } else {
            Disposition::Refused
        }
    }

    /// The state after a dispatched command was carried out. A command that the ribbon
    /// has no room for changes nothing.
    #[verifier::opaque]
    pub open spec fn executed(self, q: QueuedCommand, now: u64, foreground: i64) -> TilerState {
        if !self.has_room_for(q) {
            self
        } else {
            match q.command {
                TilerCommand::PanLeft => self.panned(Direction::Left, now),
                TilerCommand::PanRight => self.panned(Direction::Right, now),
                TilerCommand::PanUp => self.row_panned(Direction::Up, now),
                TilerCommand::PanDown => self.row_panned(Direction::Down, now),
                TilerCommand::ResizeLeft => self.resized(q.hwnd, Direction::Left, q.probe, foreground, now),
                TilerCommand::ResizeRight => self.resized(
                    q.hwnd,
                    Direction::Right,
                    q.probe,
                    foreground,
                    now,
                ),
                TilerCommand::MoveUp => self.moved(q.hwnd, Direction::Up, now),
                TilerCommand::MoveDown => self.moved(q.hwnd, Direction::Down, now),
                TilerCommand::MoveLeft => self.moved(q.hwnd, Direction::Left, now),
                TilerCommand::MoveRight => self.moved(q.hwnd, Direction::Right, now),
                TilerCommand::AddWindow => self.added(q.hwnd, q.probe, foreground, now),
                TilerCommand::IncreaseTransparency => self.transparency_adjusted(TRANSPARENCY_STEP),
                TilerCommand::DecreaseTransparency => self.transparency_adjusted(-TRANSPARENCY_STEP as i8),
                TilerCommand::ScrollToWindow => self.scrolled_to(q.hwnd, now),
                TilerCommand::IncreaseMargins => self.margins_adjusted(MARGIN_STEP),
                TilerCommand::DecreaseMargins => self.margins_adjusted(-MARGIN_STEP as i32),
                TilerCommand::RemoveWindow => self.removed(q.hwnd, now),
                TilerCommand::CycleFPS => self.fps_cycled(),
                TilerCommand::ForceRecalc => self.recalculated(now),
            }
        }
    }

    /// The placements that carrying out a dispatched command issues: one for every
    /// tile where the opacity or the margins change, those of the recalculation where
    /// one is forced.
    #[verifier::opaque]
    pub open spec fn execution_placements(self, q: QueuedCommand) -> Seq<Placement> {
        match q.command {
            TilerCommand::IncreaseTransparency | TilerCommand::DecreaseTransparency => placements_of(
                self.tiles,
                self.projection(),
            ),
            TilerCommand::IncreaseMargins => placements_of(
                self.tiles,
                (TilerState { margins: self.margins.adjusted(MARGIN_STEP as int), ..self }).projection(),
            ),
            TilerCommand::DecreaseMargins => placements_of(
                self.tiles,
                (TilerState { margins: self.margins.adjusted(-MARGIN_STEP), ..self }).projection(),
            ),
            TilerCommand::ForceRecalc => self.recalculation_placements(),
            _ => Seq::empty(),
        }
    }

    /// The window that carrying out a dispatched command brings to the foreground: a
    /// popup that was added, or a tile that changed its place by a move.
    #[verifier::opaque]
    pub open spec fn execution_focus(self, q: QueuedCommand) -> Option<i64> {
        if !self.has_room_for(q) {
            None
        } else {
            match q.command {
                TilerCommand::AddWindow => if self.add_outcome(q.hwnd, q.probe) == AddOutcome::Floating {
                    Some(q.hwnd)
                } else {
                    None
                },
                TilerCommand::MoveUp | TilerCommand::MoveDown | TilerCommand::MoveLeft
                | TilerCommand::MoveRight => if self.stilled(q.hwnd).moves(
                    q.hwnd,
                    q.command.heading().unwrap(),
                ) {
                    Some(q.hwnd)
                } else {
                    None
                },
                _ => None,
            }
        }
    }
}

impl Trace {
    /// The cycle after one more command. The throttle decides first: a command that
    /// it drops changes nothing. Any other command is noted by the throttle and takes
    /// effect at once.
    #[verifier::opaque]
    pub open spec fn step(self, q: QueuedCommand, now: u64, foreground: i64) -> Trace {
        let s = self.state;
        if !admits(s.throttle[q.command.slot()], q.command, now) {
            Trace { dispositions: self.dispositions.push(Disposition::Throttled), ..self }
        } else {
            let noted = TilerState { throttle: noted(s.throttle, q.command, now), ..s };
            Trace {
                state: noted.executed(q, now, foreground),
                dispositions: self.dispositions.push(noted.disposition_of(q)),
                placements: self.placements + noted.execution_placements(q),
                foreground: match noted.execution_focus(q) {
                    Some(id) => Some(id),
                    None => self.foreground,
                },
            }
        }
    }

    /// The cycle after the first `n` commands of `queue`, in their order.
    pub open spec fn run(self, queue: Seq<QueuedCommand>, n: int, now: u64, foreground: i64) -> Trace
        decreases n,
    {
        if n <= 0 {
            self
        } else {
            self.run(queue, n - 1, now, foreground).step(queue[n - 1], now, foreground)
        }
    }
}

impl TilerState {
    /// Where a processing cycle starts: the queue is taken, the display is looked at,
    /// and the cleanup pass drops the tiles of windows that are closed, hidden or
    /// minimized.
    pub open spec fn cycle_start(self, now: u64, around: Surroundings) -> Trace {
        let taken = TilerState { queue: Seq::empty(), ..self };
        Trace {
            state: taken.resolution_checked(now, around.display).cleaned(around.closed@).cleaned(
                around.minimized@,
            ),
            dispositions: Seq::empty(),
            placements: taken.resolution_placements(now, around.display),
            foreground: None,
        }
    }

    /// A whole processing cycle at `now`: the start, then every queued command in the
    /// order of arrival.
    pub open spec fn cycle(self, now: u64, around: Surroundings) -> Trace {
        self.cycle_start(now, around).run(self.queue, self.queue.len() as int, now, around.foreground)
    }

    /// The state after a command came in: it stands at the end of the queue, unless
    /// the queue is full.
    pub open spec fn queued(self, q: QueuedCommand) -> TilerState {
        if self.queue.len() < QUEUE_CAPACITY {
            TilerState { queue: self.queue.push(q), ..self }
        } else {
            self
        }
    }

    /// The periodic check finds a recalculation to do: with the tiles of closed windows
    /// dropped, nothing is in transition, and a recalculation is due.
    pub open spec fn check_recalculates(self, now: u64, closed: Seq<i64>) -> bool {
        self.cleaned(closed).idle() && self.cleaned(closed).recalculation_due(now)
    }

    /// The state after the periodic check for a recalculation.
    pub open spec fn recalculation_checked(self, now: u64, closed: Seq<i64>) -> TilerState {
        if self.check_recalculates(now, closed) {
            self.cleaned(closed).recalculated(now)
        } else {
            self.cleaned(closed)
        }
    }
}

impl RibbonTiler {
    /// Puts a command at the end of the queue. A full queue takes no more; the result
    /// says whether the command was taken.
    pub fn queue_command(&mut self, command: TilerCommand, hwnd: i64, probe: Option<WindowProbe>, now: u64) -> (taken:
        bool)
        ensures
            taken == (old(self).command_queue@.len() < QUEUE_CAPACITY),
            final(self)@ == old(self)@.queued(QueuedCommand { command, hwnd, timestamp: now, probe }),
            old(self).wf() ==> final(self).wf(),
    {
        if self.command_queue.len() < QUEUE_CAPACITY {
            self.command_queue.push(QueuedCommand { command, hwnd, timestamp: now, probe });
            true
        } else {
            false
        }
    }

    /// Whether adding the window would make it a tile.
    pub fn would_tile(&self, id: i64, probe: Option<WindowProbe>) -> (b: bool)
        ensures
            b == (self@.add_outcome(id, probe) == AddOutcome::Tiled),
    {
        if self.is_managed(id) {
            false
        } else {
            match probe {
                Some(p) => p.eligible && !p.popup,
                None => false,
            }
        }
    }

    /// Whether the ribbon has room for what a command asks.
    pub fn has_room_for(&self, q: &QueuedCommand) -> (b: bool)
        requires
            self.wf(),
        ensures
            b == self@.has_room_for(*q),
    {
        match q.command {
            TilerCommand::AddWindow => !self.would_tile(q.hwnd, q.probe) || self.can_add(),
            TilerCommand::ResizeLeft | TilerCommand::ResizeRight => self.has_room() && (!self.would_tile(
                q.hwnd,
                q.probe,
            ) || self.can_add()),
            TilerCommand::MoveUp | TilerCommand::MoveDown | TilerCommand::MoveLeft
            | TilerCommand::MoveRight => self.has_room(),
            _ => true,
        }
    }

    /// Carries out a resize.
    fn execute_resize(&mut self, q: &QueuedCommand, now: u64, foreground: i64)
        requires
            old(self).wf(),
            old(self)@.has_room_for(*q),
            q.command == TilerCommand::ResizeLeft || q.command == TilerCommand::ResizeRight,
        ensures
            final(self).wf(),
            final(self)@ == old(self)@.executed(*q, now, foreground),
            final(self).command_queue@ == old(self).command_queue@,
            old(self)@.execution_focus(*q).is_none(),
            old(self)@.execution_placements(*q) == Seq::<Placement>::empty(),
    {
        reveal(TilerState::executed);
        reveal(TilerState::execution_placements);
        reveal(TilerState::execution_focus);
        let direction: Direction = match q.command {
            TilerCommand::ResizeLeft => Direction::Left,
            _ => Direction::Right,
        };
        self.resize_window(q.hwnd, direction, q.probe, foreground, now);
    }

    /// Carries out a move.
    fn execute_move(&mut self, q: &QueuedCommand, now: u64, foreground: i64) -> (focus: Option<i64>)
        requires
            old(self).wf(),
            old(self)@.has_room_for(*q),
            q.command == TilerCommand::MoveUp || q.command == TilerCommand::MoveDown || q.command
                == TilerCommand::MoveLeft || q.command == TilerCommand::MoveRight,
        ensures
            final(self).wf(),
            final(self)@ == old(self)@.executed(*q, now, foreground),
            final(self).command_queue@ == old(self).command_queue@,
            focus == old(self)@.execution_focus(*q),
            old(self)@.execution_placements(*q) == Seq::<Placement>::empty(),
    {
        reveal(TilerState::executed);
        reveal(TilerState::execution_placements);
        reveal(TilerState::execution_focus);
        let direction: Direction = match q.command {
            TilerCommand::MoveUp => Direction::Up,
            TilerCommand::MoveDown => Direction::Down,
            TilerCommand::MoveLeft => Direction::Left,
            _ => Direction::Right,
        };
        if self.move_window(q.hwnd, direction, now) {
            Some(q.hwnd)
        } else {
            None
        }
    }

    /// Carries out the addition or the removal of a window.
    fn execute_membership(&mut self, q: &QueuedCommand, now: u64, foreground: i64) -> (focus: Option<i64>)
        requires
            old(self).wf(),
            old(self)@.has_room_for(*q),
            q.command == TilerCommand::AddWindow || q.command == TilerCommand::RemoveWindow,
        ensures
            final(self).wf(),
            final(self)@ == old(self)@.executed(*q, now, foreground),
            final(self).command_queue@ == old(self).command_queue@,
            focus == old(self)@.execution_focus(*q),
            old(self)@.execution_placements(*q) == Seq::<Placement>::empty(),
    {
        reveal(TilerState::executed);
        reveal(TilerState::execution_placements);
        reveal(TilerState::execution_focus);
        match q.command {
            TilerCommand::AddWindow => {
                match self.add_window(q.hwnd, q.probe, foreground, now) {
                    AddOutcome::Floating => Some(q.hwnd),
                    _ => None,
                }
            },
            _ => {
                let _ = self.remove_window(q.hwnd, now);
                None
            },
        }
    }

    /// Carries out a command that changes the tiles.
    fn execute_structural(&mut self, q: &QueuedCommand, now: u64, foreground: i64) -> (focus: Option<i64>)
        requires
            old(self).wf(),
            old(self)@.has_room_for(*q),
            q.command == TilerCommand::ResizeLeft || q.command == TilerCommand::ResizeRight || q.command
                == TilerCommand::MoveUp || q.command == TilerCommand::MoveDown || q.command
                == TilerCommand::MoveLeft || q.command == TilerCommand::MoveRight || q.command
                == TilerCommand::AddWindow || q.command == TilerCommand::RemoveWindow,
        ensures
            final(self).wf(),
            final(self)@ == old(self)@.executed(*q, now, foreground),
            final(self).command_queue@ == old(self).command_queue@,
            focus == old(self)@.execution_focus(*q),
            old(self)@.execution_placements(*q) == Seq::<Placement>::empty(),
    {
        match q.command {
            TilerCommand::ResizeLeft | TilerCommand::ResizeRight => {
                self.execute_resize(q, now, foreground);
                None
            },
            TilerCommand::AddWindow | TilerCommand::RemoveWindow => self.execute_membership(
                q,
                now,
                foreground,
            ),
            _ => self.execute_move(q, now, foreground),
        }
    }

    /// Carries out a command that changes the look of the tiles or recalculates.
    fn execute_placing(&mut self, q: &QueuedCommand, now: u64, foreground: i64) -> (placements: Vec<
        Placement,
    >)
        requires
            old(self).wf(),
            q.command == TilerCommand::IncreaseTransparency || q.command
                == TilerCommand::DecreaseTransparency || q.command == TilerCommand::IncreaseMargins
                || q.command == TilerCommand::DecreaseMargins || q.command
                == TilerCommand::ForceRecalc,
        ensures
            final(self).wf(),
            final(self)@ == old(self)@.executed(*q, now, foreground),
            final(self).command_queue@ == old(self).command_queue@,
            placements@ == old(self)@.execution_placements(*q),
            old(self)@.execution_focus(*q).is_none(),
    {
        reveal(TilerState::executed);
        reveal(TilerState::execution_placements);
        reveal(TilerState::execution_focus);
        match q.command {
            TilerCommand::IncreaseTransparency => self.adjust_transparency(TRANSPARENCY_STEP),
            TilerCommand::DecreaseTransparency => self.adjust_transparency(-TRANSPARENCY_STEP),
            TilerCommand::IncreaseMargins => self.adjust_margins(MARGIN_STEP),
            TilerCommand::DecreaseMargins => self.adjust_margins(-MARGIN_STEP),
            _ => self.recalculate_ribbon(now),
        }
    }

    /// Carries out a command that moves the viewport or changes the frame rate.
    fn execute_viewing(&mut self, q: &QueuedCommand, now: u64, foreground: i64)
        requires
            old(self).wf(),
            q.command == TilerCommand::PanLeft || q.command == TilerCommand::PanRight || q.command
                == TilerCommand::PanUp || q.command == TilerCommand::PanDown || q.command
                == TilerCommand::ScrollToWindow || q.command == TilerCommand::CycleFPS,
        ensures
            final(self).wf(),
            final(self)@ == old(self)@.executed(*q, now, foreground),
            final(self).command_queue@ == old(self).command_queue@,
            old(self)@.execution_placements(*q) == Seq::<Placement>::empty(),
            old(self)@.execution_focus(*q).is_none(),
    {
        reveal(TilerState::executed);
        reveal(TilerState::execution_placements);
        reveal(TilerState::execution_focus);
        match q.command {
            TilerCommand::PanLeft => self.pan_ribbon(Direction::Left, now),
            TilerCommand::PanRight => self.pan_ribbon(Direction::Right, now),
            TilerCommand::PanUp => self.pan_row(Direction::Up, now),
            TilerCommand::PanDown => self.pan_row(Direction::Down, now),
            TilerCommand::ScrollToWindow => self.scroll_to_window(q.hwnd, now),
            _ => self.cycle_fps(),
        }
    }

    /// Carries out one command that the throttle has let through. A command that the
    /// ribbon has no room for is refused, and changes nothing.
    pub fn execute(&mut self, q: &QueuedCommand, now: u64, foreground: i64) -> (out: Executed)
        requires
            old(self).wf(),
        ensures
            final(self).wf(),
            final(self)@ == old(self)@.executed(*q, now, foreground),
            final(self).command_queue@ == old(self).command_queue@,
            out.placements@ == old(self)@.execution_placements(*q),
            out.foreground == old(self)@.execution_focus(*q),
            out.disposition == old(self)@.disposition_of(*q),
            out.styles@ == old(self)@.execution_styling(*q, now, foreground),
    {
        let mut placements: Vec<Placement> = Vec::new();
        let mut focus: Option<i64> = None;
        let plan: crate::styling::StylePlan = self.style_plan(q);
        proof {
            assert(placements@ =~= Seq::empty());
        }
        match q.command {
            TilerCommand::ResizeLeft | TilerCommand::ResizeRight | TilerCommand::MoveUp
            | TilerCommand::MoveDown | TilerCommand::MoveLeft | TilerCommand::MoveRight
            | TilerCommand::AddWindow | TilerCommand::RemoveWindow => {
                if !self.has_room_for(q) {
                    proof {
                        reveal(TilerState::executed);
                        reveal(TilerState::execution_placements);
                        reveal(TilerState::execution_focus);
                    }
                    let styles: StyleWork = self.style_work(plan, q.hwnd);
                    return Executed { disposition: Disposition::Refused, placements, foreground: None, styles };
                }
                focus = self.execute_structural(q, now, foreground);
            },
            TilerCommand::IncreaseTransparency | TilerCommand::DecreaseTransparency
            | TilerCommand::IncreaseMargins | TilerCommand::DecreaseMargins
            | TilerCommand::ForceRecalc => {
                placements = self.execute_placing(q, now, foreground);
            },
            _ => {
                self.execute_viewing(q, now, foreground);
            },
        }
        let styles: StyleWork = self.style_work(plan, q.hwnd);
        Executed { disposition: Disposition::Done, placements, foreground: focus, styles }
    }

    /// Takes one command of the queue: asks the throttle, carries the command out if it
    /// is let through, and adds what comes of it to what the cycle has gathered.
    fn dispatch(
        &mut self,
        q: &QueuedCommand,
        now: u64,
        foreground: i64,
        dispositions: &mut Vec<Disposition>,
        placements: &mut Vec<Placement>,
        styles: &mut StyleWork,
        focus: Option<i64>,
    ) -> (next_focus: Option<i64>)
        requires
            old(self).wf(),
        ensures
            final(self).wf(),
            final(self).command_queue@ == old(self).command_queue@,
            final(dispositions)@.len() == old(dispositions)@.len() + 1,
            final(styles)@ == old(styles)@.and(
                (Trace {
                    state: old(self)@,
                    dispositions: old(dispositions)@,
                    placements: old(placements)@,
                    foreground: focus,
                }).step_styling(*q, now, foreground),
            ),
            (Trace {
                state: final(self)@,
                dispositions: final(dispositions)@,
                placements: final(placements)@,
                foreground: next_focus,
            }) == (Trace {
                state: old(self)@,
                dispositions: old(dispositions)@,
                placements: old(placements)@,
                foreground: focus,
            }).step(*q, now, foreground),
    {
        reveal(Trace::step);
        let ghost before = self@;
        if self.throttle.let_through(q.command, now) {
            let mut out: Executed = self.execute(q, now, foreground);
            dispositions.push(out.disposition);
            placements.append(&mut out.placements);
            styles.take(out.styles);
            match out.foreground {
                Some(id) => Some(id),
                None => focus,
            }
        } else {
            dispositions.push(Disposition::Throttled);
            proof {
                assert(self@.throttle =~= before.throttle);
                assert(styles@.prepared =~= old(styles)@.and(Styling::none()).prepared);
                assert(styles@.tinted =~= old(styles)@.and(Styling::none()).tinted);
            }
            focus
        }
    }

    /// One processing cycle: looks at the display, runs the cleanup pass, then takes
    /// the queued commands in the order of their arrival. A command that is no pan is
    /// dropped if one of its kind was dispatched less than `THROTTLE_MS` before; every
    /// other command takes effect at once.
    pub fn process_command_queue(&mut self, now: u64, around: &Surroundings) -> (report: CycleReport)
        requires
            old(self).wf(),
            around.display.valid(),
        ensures
            final(self).wf(),
            final(self)@ == old(self)@.cycle(now, *around).state,
            report.dispositions@ == old(self)@.cycle(now, *around).dispositions,
            report.placements@ == old(self)@.cycle(now, *around).placements,
            report.foreground == old(self)@.cycle(now, *around).foreground,
            report.styles@ == old(self)@.cycle_styling(now, *around),
            report.dispositions@.len() == old(self).command_queue@.len(),
            final(self).command_queue@.len() == 0,
    {
        let mut commands: Vec<QueuedCommand> = Vec::new();
        core::mem::swap(&mut commands, &mut self.command_queue);
        proof {
            assert(self@.queue =~= Seq::empty());
        }
        let shown: crate::geometry::Display = self.display;
        let mut placements: Vec<Placement> = self.check_monitor_dimensions(now, around.display);
        let mut styles: StyleWork = StyleWork::none();
        if self.display.width != shown.width || self.display.height != shown.height {
            styles.prepared = crate::styling::tile_ids(&self.tiles);
        }
        let ghost first = styles@;
        self.clean_closed_windows(&around.closed);
        self.clean_minimized_windows(&around.minimized);
        let mut dispositions: Vec<Disposition> = Vec::new();
        let mut foreground: Option<i64> = None;
        let ghost start = old(self)@.cycle_start(now, *around);
        proof {
            assert(dispositions@ =~= Seq::empty());
            assert(first == (TilerState { queue: Seq::empty(), ..old(self)@ }).resolution_styling(
                now,
                around.display,
            ));
            assert(styles@.prepared =~= first.and(Styling::none()).prepared);
            assert(styles@.tinted =~= first.and(Styling::none()).tinted);
        }
        let mut i: usize = 0;
        while i < commands.len()
            invariant
                i <= commands.len(),
                commands@ == old(self)@.queue,
                self.wf(),
                self.command_queue@.len() == 0,
                start == old(self)@.cycle_start(now, *around),
                dispositions@.len() == i,
                styles@ == first.and(start.run_styling(commands@, i as int, now, around.foreground)),
                (Trace {
                    state: self@,
                    dispositions: dispositions@,
                    placements: placements@,
                    foreground,
                }) == start.run(commands@, i as int, now, around.foreground),
            decreases commands.len() - i,
        {
            let q: QueuedCommand = commands[i];
            let ghost gathered = start.run_styling(commands@, i as int, now, around.foreground);
            let ghost more = start.run(commands@, i as int, now, around.foreground).step_styling(
                q,
                now,
                around.foreground,
            );
            foreground = self.dispatch(
                &q,
                now,
                around.foreground,
                &mut dispositions,
                &mut placements,
                &mut styles,
                foreground,
            );
            proof {
                assert(styles@.prepared =~= first.and(gathered.and(more)).prepared);
                assert(styles@.tinted =~= first.and(gathered.and(more)).tinted);
            }
            i += 1;
        }
        CycleReport { dispositions, placements, foreground, styles }
    }

    /// The periodic check for a recalculation: drops the tiles of closed windows, and
    /// recalculates if nothing is in transition, a recalculation is needed, and the
    /// last one is more than `RECALC_DEBOUNCE_MS` ago.
    pub fn check_recalculation(&mut self, now: u64, closed: &Vec<i64>) -> (placements: Vec<Placement>)
        requires
            old(self).wf(),
        ensures
            final(self).wf(),
            final(self)@ == old(self)@.recalculation_checked(now, closed@),
            placements@ == (if old(self)@.check_recalculates(now, closed@) {
                old(self)@.cleaned(closed@).recalculation_placements()
            } else {
                Seq::empty()
            }),
    {
        self.clean_closed_windows(closed);
        if self.is_idle() && self.recalculation_due(now) {
            self.recalculate_ribbon(now)
        } else {
            let none: Vec<Placement> = Vec::new();
            proof {
                assert(none@ =~= Seq::empty());
            }
            none
        }
    }
}

} // verus!
