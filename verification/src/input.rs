//! The input state machine: which playback mode a key leads to, and what
//! each mode does to the rotation angles.

use vstd::prelude::*;
use crate::config::Config;

verus! {

/// A key event, reduced to what the animation reacts to.
#[derive(Clone, Copy, Debug, PartialEq, Eq, Structural)]
pub enum Key {
    Left,
    Right,
    Up,
    Down,
    /// A character key.
    Char(char),
    /// Any other key or event.
    Other,
}

/// The playback mode.
///
/// `Running`, `Stopped` and `Quit` last until a key changes them. The four
/// directions are one-shot: each stands for a single nudge that is still to
/// be applied, and gives way to `Stopped` as soon as it has been.
#[derive(Clone, Copy, Debug, PartialEq, Eq, Structural)]
pub enum Mode {
    Running,
    Stopped,
    Left,
    Right,
    Up,
    Down,
    Quit,
}

/// The mode after an input: an arrow key requests a nudge, `q` quits, the
/// space bar stops a running animation and starts any other, and everything
/// else, like no input at all, leaves the mode as it is.
pub open spec fn mode_after(mode: Mode, key: Option<Key>) -> Mode {
    match key {
        Some(Key::Left) => Mode::Left,
        Some(Key::Right) => Mode::Right,
        Some(Key::Up) => Mode::Up,
        Some(Key::Down) => Mode::Down,
        Some(Key::Char(c)) => if c == 'q' {
            Mode::Quit
        } else if c == ' ' {
            if mode == Mode::Running {
                Mode::Stopped
            } else {
                Mode::Running
            }
        } else {
            mode
        },
        Some(Key::Other) => mode,
        None => mode,
    }
}

/// The change of the first rotation angle that a mode applies in one frame.
pub open spec fn a_step(cfg: Config, mode: Mode) -> int {
    match mode {
        Mode::Running => cfg.a_spacing as int,
        Mode::Up => cfg.a_spacing as int,
        Mode::Down => -(cfg.a_spacing as int),
        _ => 0,
    }
}

/// The change of the second rotation angle that a mode applies in one frame.
pub open spec fn b_step(cfg: Config, mode: Mode) -> int {
    match mode {
        Mode::Running => cfg.b_spacing as int,
        Mode::Left => cfg.b_spacing as int,
        Mode::Right => -(cfg.b_spacing as int),
        _ => 0,
    }
}

/// The mode once its step has been applied: a nudge is spent and leaves the
/// animation stopped, every other mode persists.
pub open spec fn settled(mode: Mode) -> Mode {
    match mode {
        Mode::Left | Mode::Right | Mode::Up | Mode::Down => Mode::Stopped,
        _ => mode,
    }
}

impl Mode {
    /// The mode after an input.
    pub fn after(self, key: Option<Key>) -> (next: Mode)
        ensures
            next == mode_after(self, key),
    {
        match key {
            Some(Key::Left) => Mode::Left,
            Some(Key::Right) => Mode::Right,
            Some(Key::Up) => Mode::Up,
            Some(Key::Down) => Mode::Down,
            Some(Key::Char(c)) => {
                if c == 'q' {
                    Mode::Quit
                } else if c == ' ' {
                    match self {
                        Mode::Running => Mode::Stopped,
                        _ => Mode::Running,
                    }
                } else {
                    self
                }
            },
            Some(Key::Other) => self,
            None => self,
        }
    }

    /// The steps that this mode applies to the two rotation angles in one
    /// frame.
    pub fn steps(self, cfg: &Config) -> (steps: (i64, i64))
        ensures
            steps.0 == a_step(*cfg, self),
            steps.1 == b_step(*cfg, self),
    {
        let a: i64 = cfg.a_spacing as i64;
        let b: i64 = cfg.b_spacing as i64;
        match self {
            Mode::Running => (a, b),
            Mode::Up => (a, 0),
            Mode::Down => (-a, 0),
            Mode::Left => (0, b),
            Mode::Right => (0, -b),
            _ => (0, 0),
        }
    }

    /// The mode once its step has been applied.
    pub fn settle(self) -> (next: Mode)
        ensures
            next == settled(self),
    {
        match self {
            Mode::Left | Mode::Right | Mode::Up | Mode::Down => Mode::Stopped,
            _ => self,
        }
    }
}

/// An input never leaves a pending nudge behind once its frame is over:
/// after a key has been read and the step applied, the mode is `Running`,
/// `Stopped` or `Quit`, provided it was one of these before.
pub proof fn lemma_modes_settle(mode: Mode, key: Option<Key>)
    requires
        settled(mode) == mode,
    ensures
        settled(settled(mode_after(mode, key))) == settled(mode_after(mode, key)),
        settled(mode_after(mode, key)) is Running || settled(mode_after(mode, key)) is Stopped
            || settled(mode_after(mode, key)) is Quit,
{
}

} // verus!
