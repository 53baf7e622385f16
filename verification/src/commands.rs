//! The commands that reach the tiler, the queue they wait in, and the throttle that
//! drops a command repeated too soon.

use vstd::prelude::*;
use std::collections::HashMap;
use crate::animation::{elapsed_between, elapsed_since};
use crate::geometry::{Direction, Display, Rect};

verus! {

/// Two commands of one kind closer together than this are one command.
pub const THROTTLE_MS: u64 = 50;

/// The number of command kinds.
pub const COMMAND_KINDS: usize = 19;

/// The kinds of command.
#[derive(Clone, Copy, Debug, PartialEq, Eq, Structural)]
pub enum TilerCommand {
    PanLeft,
    PanRight,
    PanUp,
    PanDown,
    ResizeLeft,
    ResizeRight,
    MoveUp,
    MoveDown,
    MoveLeft,
    MoveRight,
    AddWindow,
    IncreaseTransparency,
    DecreaseTransparency,
    ScrollToWindow,
    IncreaseMargins,
    DecreaseMargins,
    RemoveWindow,
    CycleFPS,
    ForceRecalc,
}

/// What the windowing side found out about the window a command names.
#[derive(Clone, Copy, Debug, PartialEq, Eq, Structural)]
pub struct WindowProbe {
    /// The window may be managed at all.
    pub eligible: bool,
    /// The window is a transient popup: it floats and is never tiled.
    pub popup: bool,
    pub style: u32,
    pub ex_style: u32,
    /// Where the window is on screen.
    pub rect: Rect,
}

/// A command waiting to be dispatched.
#[derive(Clone, Copy, Debug, PartialEq, Eq)]
pub struct QueuedCommand {
    pub command: TilerCommand,
    /// The window the command is about.
    pub hwnd: i64,
    /// When the command arrived.
    pub timestamp: u64,
    /// What is known of that window; `None` where nobody looked.
    pub probe: Option<WindowProbe>,
}

/// What the dispatcher is told about the world at the start of a processing cycle.
pub struct Surroundings {
    /// The display as it is now.
    pub display: Display,
    /// The window that has the focus.
    pub foreground: i64,
    /// Managed windows that no longer exist or are hidden.
    pub closed: Vec<i64>,
    /// Managed windows that are minimized.
    pub minimized: Vec<i64>,
}

impl TilerCommand {
    /// The four pans are never throttled.
    pub open spec fn is_pan(self) -> bool {
        self == TilerCommand::PanLeft || self == TilerCommand::PanRight || self
            == TilerCommand::PanUp || self == TilerCommand::PanDown
    }

    /// The place of the kind in the throttle's table.
    pub open spec fn slot(self) -> int {
        match self {
            TilerCommand::PanLeft => 0,
            TilerCommand::PanRight => 1,
            TilerCommand::PanUp => 2,
            TilerCommand::PanDown => 3,
            TilerCommand::ResizeLeft => 4,
            TilerCommand::ResizeRight => 5,
            TilerCommand::MoveUp => 6,
            TilerCommand::MoveDown => 7,
            TilerCommand::MoveLeft => 8,
            TilerCommand::MoveRight => 9,
            TilerCommand::AddWindow => 10,
            TilerCommand::IncreaseTransparency => 11,
            TilerCommand::DecreaseTransparency => 12,
            TilerCommand::ScrollToWindow => 13,
            TilerCommand::IncreaseMargins => 14,
            TilerCommand::DecreaseMargins => 15,
            TilerCommand::RemoveWindow => 16,
            TilerCommand::CycleFPS => 17,
            TilerCommand::ForceRecalc => 18,
        }
    }

    /// The number a command travels under between the input side and the dispatcher.
    pub open spec fn code_of(self) -> int {
        match self {
            TilerCommand::PanLeft => 0,
            TilerCommand::PanRight => 1,
            TilerCommand::PanUp => 2,
            TilerCommand::PanDown => 3,
            TilerCommand::ResizeLeft => 4,
            TilerCommand::ResizeRight => 5,
            TilerCommand::MoveUp => 6,
            TilerCommand::MoveDown => 7,
            TilerCommand::MoveLeft => 8,
            TilerCommand::MoveRight => 9,
            TilerCommand::AddWindow => 10,
            TilerCommand::IncreaseTransparency => 14,
            TilerCommand::DecreaseTransparency => 15,
            TilerCommand::ScrollToWindow => 17,
            TilerCommand::IncreaseMargins => 18,
            TilerCommand::DecreaseMargins => 19,
            TilerCommand::RemoveWindow => 20,
            TilerCommand::CycleFPS => 21,
            TilerCommand::ForceRecalc => 22,
        }
    }

    /// The direction a pan, a resize or a move goes in.
    pub open spec fn heading(self) -> Option<Direction> {
        match self {
            TilerCommand::PanLeft | TilerCommand::ResizeLeft | TilerCommand::MoveLeft => Some(
                Direction::Left,
            ),
            TilerCommand::PanRight | TilerCommand::ResizeRight | TilerCommand::MoveRight => Some(
                Direction::Right,
            ),
            TilerCommand::PanUp | TilerCommand::MoveUp => Some(Direction::Up),
            TilerCommand::PanDown | TilerCommand::MoveDown => Some(Direction::Down),
            _ => None,
        }
    }

    /// Whether the command is one of the four pans.
    pub fn is_pan_command(self) -> (b: bool)
        ensures
            b == self.is_pan(),
    {
        match self {
            TilerCommand::PanLeft | TilerCommand::PanRight | TilerCommand::PanUp
            | TilerCommand::PanDown => true,
            _ => false,
        }
    }

    /// The place of the kind in the throttle's table.
    pub fn index(self) -> (i: usize)
        ensures
            i == self.slot(),
            i < COMMAND_KINDS,
    {
        match self {
            TilerCommand::PanLeft => 0,
            TilerCommand::PanRight => 1,
            TilerCommand::PanUp => 2,
            TilerCommand::PanDown => 3,
            TilerCommand::ResizeLeft => 4,
            TilerCommand::ResizeRight => 5,
            TilerCommand::MoveUp => 6,
            TilerCommand::MoveDown => 7,
            TilerCommand::MoveLeft => 8,
            TilerCommand::MoveRight => 9,
            TilerCommand::AddWindow => 10,
            TilerCommand::IncreaseTransparency => 11,
            TilerCommand::DecreaseTransparency => 12,
            TilerCommand::ScrollToWindow => 13,
            TilerCommand::IncreaseMargins => 14,
            TilerCommand::DecreaseMargins => 15,
            TilerCommand::RemoveWindow => 16,
            TilerCommand::CycleFPS => 17,
            TilerCommand::ForceRecalc => 18,
        }
    }

    /// The number the command travels under.
    pub fn code(self) -> (c: u32)
        ensures
            c == self.code_of(),
    {
        match self {
            TilerCommand::PanLeft => 0,
            TilerCommand::PanRight => 1,
            TilerCommand::PanUp => 2,
            TilerCommand::PanDown => 3,
            TilerCommand::ResizeLeft => 4,
            TilerCommand::ResizeRight => 5,
            TilerCommand::MoveUp => 6,
            TilerCommand::MoveDown => 7,
            TilerCommand::MoveLeft => 8,
            TilerCommand::MoveRight => 9,
            TilerCommand::AddWindow => 10,
            TilerCommand::IncreaseTransparency => 14,
            TilerCommand::DecreaseTransparency => 15,
            TilerCommand::ScrollToWindow => 17,
            TilerCommand::IncreaseMargins => 18,
            TilerCommand::DecreaseMargins => 19,
            TilerCommand::RemoveWindow => 20,
            TilerCommand::CycleFPS => 21,
            TilerCommand::ForceRecalc => 22,
        }
    }

    /// The command that travels under `code`, if any does.
    pub fn from_code(code: u32) -> (c: Option<TilerCommand>)
        ensures
            match c {
                Some(command) => command.code_of() == code,
                None => forall|command: TilerCommand| command.code_of() != code,
            },
    {
        match code {
            0 => Some(TilerCommand::PanLeft),
            1 => Some(TilerCommand::PanRight),
            2 => Some(TilerCommand::PanUp),
            3 => Some(TilerCommand::PanDown),
            4 => Some(TilerCommand::ResizeLeft),
            5 => Some(TilerCommand::ResizeRight),
            6 => Some(TilerCommand::MoveUp),
            7 => Some(TilerCommand::MoveDown),
            8 => Some(TilerCommand::MoveLeft),
            9 => Some(TilerCommand::MoveRight),
            10 => Some(TilerCommand::AddWindow),
            14 => Some(TilerCommand::IncreaseTransparency),
            15 => Some(TilerCommand::DecreaseTransparency),
            17 => Some(TilerCommand::ScrollToWindow),
            18 => Some(TilerCommand::IncreaseMargins),
            19 => Some(TilerCommand::DecreaseMargins),
            20 => Some(TilerCommand::RemoveWindow),
            21 => Some(TilerCommand::CycleFPS),
            22 => Some(TilerCommand::ForceRecalc),
            _ => None,
        }
    }

    /// The direction a pan, a resize or a move goes in.
    pub fn direction(self) -> (d: Option<Direction>)
        ensures
            d == self.heading(),
    {
        match self {
            TilerCommand::PanLeft | TilerCommand::ResizeLeft | TilerCommand::MoveLeft => Some(
                Direction::Left,
            ),
            TilerCommand::PanRight | TilerCommand::ResizeRight | TilerCommand::MoveRight => Some(
                Direction::Right,
            ),
            TilerCommand::PanUp | TilerCommand::MoveUp => Some(Direction::Up),
            TilerCommand::PanDown | TilerCommand::MoveDown => Some(Direction::Down),
            _ => None,
        }
    }
}

/// Whether a command of a kind last dispatched at `last` is let through at `now`: a
/// pan always, any other kind unless less than `THROTTLE_MS` have passed.
pub open spec fn admits(last: Option<u64>, command: TilerCommand, now: u64) -> bool {
    command.is_pan() || match last {
        Some(t) => elapsed_between(t, now) >= THROTTLE_MS,
        None => true,
    }
}

/// The table of last dispatch times after a command of `command`'s kind came at `now`:
/// the kind's entry is `now` if the command was let through, and nothing else changes.
pub open spec fn noted(table: Seq<Option<u64>>, command: TilerCommand, now: u64) -> Seq<Option<u64>> {
    if admits(table[command.slot()], command, now) {
        table.update(command.slot(), Some(now))
    } else {
        table
    }
}

/// When each kind of command was last dispatched: a map from the kind's place in the
/// table to the time, with no entry for a kind that was never dispatched.
pub struct Throttle {
    pub last_dispatch: HashMap<usize, u64>,
}

impl Throttle {
    /// The table of last dispatch times, with one entry for every kind of command.
    pub open spec fn table(&self) -> Seq<Option<u64>> {
        Seq::new(
            COMMAND_KINDS as nat,
            |i: int|
                if self.last_dispatch@.contains_key(i as usize) {
                    Some(self.last_dispatch@[i as usize])
                } else {
                    None
                },
        )
    }

    /// A throttle that has seen no command yet.
    pub fn new() -> (t: Throttle)
        ensures
            t.table().len() == COMMAND_KINDS,
            forall|i: int| 0 <= i < COMMAND_KINDS ==> (#[trigger] t.table()[i]).is_none(),
    {
        Throttle { last_dispatch: HashMap::new() }
    }

    /// Decides whether a command is dispatched at `now`, and notes the dispatch.
    pub fn let_through(&mut self, command: TilerCommand, now: u64) -> (admitted: bool)
        ensures
            admitted == admits(old(self).table()[command.slot()], command, now),
            final(self).table() == noted(old(self).table(), command, now),
    {
        let slot: usize = command.index();
        if !command.is_pan_command() {
            match self.last_dispatch.get(&slot) {
                Some(t) => {
                    if elapsed_since(*t, now) < THROTTLE_MS {
                        return false;
                    }
                },
                None => {},
            }
        }
        let _ = self.last_dispatch.insert(slot, now);
        proof {
            assert(self.table() =~= old(self).table().update(slot as int, Some(now)));
        }
        true
    }
}

/// Of two commands of one kind other than a pan, the second in time is dispatched
/// exactly if at least `THROTTLE_MS` lie between them, given that the first was; a
/// command of another kind in between makes no difference.
pub proof fn lemma_throttle(
    table: Seq<Option<u64>>,
    command: TilerCommand,
    first: u64,
    second: u64,
)
    requires
        table.len() == COMMAND_KINDS,
        !command.is_pan(),
        first <= second,
        admits(table[command.slot()], command, first),
    ensures
        admits(noted(table, command, first)[command.slot()], command, second) <==> second - first
            >= THROTTLE_MS,
        forall|other: TilerCommand, between: u64|
            other != command ==> admits(
                #[trigger] noted(noted(table, command, first), other, between)[command.slot()],
                command,
                second,
            ) == (second - first >= THROTTLE_MS),
{
    assert forall|other: TilerCommand, between: u64| other != command implies admits(
        #[trigger] noted(noted(table, command, first), other, between)[command.slot()],
        command,
        second,
    ) == (second - first >= THROTTLE_MS) by {
        assert(other.slot() != command.slot());
    }
}

/// A pan is dispatched whenever it comes.
pub proof fn lemma_pans_pass(table: Seq<Option<u64>>, command: TilerCommand, now: u64)
    requires
        command.is_pan(),
    ensures
        admits(table[command.slot()], command, now),
{
}

/// Every command is found again under its own code.
pub proof fn lemma_codes_distinct(a: TilerCommand, b: TilerCommand)
    ensures
        a.code_of() == b.code_of() ==> a == b,
        a.slot() == b.slot() ==> a == b,
        0 <= a.slot() < COMMAND_KINDS,
{
}

} // verus!
