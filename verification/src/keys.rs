//! Which key, held with which modifiers, asks for which command.

use vstd::prelude::*;
use crate::commands::TilerCommand;

verus! {

/// The keys that commands are bound to.
#[derive(Clone, Copy, Debug, PartialEq, Eq, Structural)]
pub enum Key {
    Up,
    Down,
    Left,
    Right,
    Plus,
    Minus,
    C,
    F,
    M,
    N,
    R,
    S,
    T,
    Other,
}

/// The modifier keys held down while a key is pressed.
#[derive(Clone, Copy, Debug, PartialEq, Eq, Structural)]
pub struct Modifiers {
    pub ctrl: bool,
    pub alt: bool,
    pub shift: bool,
    pub win: bool,
}

/// The command that a key press asks for. Every binding needs the Windows key and
/// excludes Alt. Alone, the key pans, recalculates, scrolls to the window, and changes
/// opacity, margins and frame rate; with Ctrl it resizes; with Ctrl and Shift it moves;
/// with Shift it adds and removes, and changes opacity.
pub open spec fn bound_command(key: Key, m: Modifiers) -> Option<TilerCommand> {
    if !m.win || m.alt {
        None
    } else if !m.ctrl && !m.shift {
        match key {
            Key::Up => Some(TilerCommand::PanUp),
            Key::Down => Some(TilerCommand::PanDown),
            Key::Left => Some(TilerCommand::PanLeft),
            Key::Right => Some(TilerCommand::PanRight),
            Key::C => Some(TilerCommand::ForceRecalc),
            Key::Plus => Some(TilerCommand::IncreaseTransparency),
            Key::Minus => Some(TilerCommand::DecreaseTransparency),
            Key::S => Some(TilerCommand::ScrollToWindow),
            Key::M => Some(TilerCommand::IncreaseMargins),
            Key::N => Some(TilerCommand::DecreaseMargins),
            Key::F => Some(TilerCommand::CycleFPS),
            _ => None,
        }
    } else if m.ctrl && !m.shift {
        match key {
            Key::Left => Some(TilerCommand::ResizeLeft),
            Key::Right => Some(TilerCommand::ResizeRight),
            _ => None,
        }
    } else if m.ctrl && m.shift {
        match key {
            Key::Up => Some(TilerCommand::MoveUp),
            Key::Down => Some(TilerCommand::MoveDown),
            Key::Left => Some(TilerCommand::MoveLeft),
            Key::Right => Some(TilerCommand::MoveRight),
            _ => None,
        }
    } else {
        match key {
            Key::Plus => Some(TilerCommand::IncreaseTransparency),
            Key::Minus => Some(TilerCommand::DecreaseTransparency),
            Key::T => Some(TilerCommand::AddWindow),
            Key::R => Some(TilerCommand::RemoveWindow),
            _ => None,
        }
    }
}

/// The command that a key press asks for, if any.
pub fn command_for_key(key: Key, m: Modifiers) -> (command: Option<TilerCommand>)
    ensures
        command == bound_command(key, m),
{
    if !m.win {
        return None;
    }
    let mut command: Option<TilerCommand> = None;
    if m.win && !m.ctrl && !m.shift && !m.alt {
        match key {
            Key::Up => {
                command = Some(TilerCommand::PanUp);
            },
            Key::Down => {
                command = Some(TilerCommand::PanDown);
            },
            Key::Left => {
                command = Some(TilerCommand::PanLeft);
            },
            Key::Right => {
                command = Some(TilerCommand::PanRight);
            },
            Key::C => {
                command = Some(TilerCommand::ForceRecalc);
            },
            _ => {},
        }
    }
    if m.win && m.ctrl && !m.shift && !m.alt {
        match key {
            Key::Left => {
                command = Some(TilerCommand::ResizeLeft);
            },
            Key::Right => {
                command = Some(TilerCommand::ResizeRight);
            },
            _ => {},
        }
    }
    if m.win && m.ctrl && m.shift && !m.alt {
        match key {
            Key::Up => {
                command = Some(TilerCommand::MoveUp);
            },
            Key::Down => {
                command = Some(TilerCommand::MoveDown);
            },
            Key::Left => {
                command = Some(TilerCommand::MoveLeft);
            },
            Key::Right => {
                command = Some(TilerCommand::MoveRight);
            },
            _ => {},
        }
    }
    if m.win && !m.ctrl && !m.shift && !m.alt {
        match key {
            Key::Plus => {
                command = Some(TilerCommand::IncreaseTransparency);
            },
            Key::Minus => {
                command = Some(TilerCommand::DecreaseTransparency);
            },
            Key::S => {
                command = Some(TilerCommand::ScrollToWindow);
            },
            Key::M => {
                command = Some(TilerCommand::IncreaseMargins);
            },
            Key::N => {
                command = Some(TilerCommand::DecreaseMargins);
            },
            Key::F => {
                command = Some(TilerCommand::CycleFPS);
            },
            _ => {},
        }
    }
    if m.win && m.shift && !m.ctrl && !m.alt {
        match key {
            Key::Plus => {
                command = Some(TilerCommand::IncreaseTransparency);
            },
            Key::Minus => {
                command = Some(TilerCommand::DecreaseTransparency);
            },
            Key::T => {
                command = Some(TilerCommand::AddWindow);
            },
            Key::R => {
                command = Some(TilerCommand::RemoveWindow);
            },
            _ => {},
        }
    }
    command
}

} // verus!
