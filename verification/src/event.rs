//! What the host tells the game.

use vstd::prelude::*;
use crate::spatial::{Position, Size};

verus! {

/// What the pointer did, and at which pixel of the window.
#[derive(Debug, Clone, Copy, PartialEq, Eq, Structural)]
pub enum MouseEvent {
    Move { position: Position },
    Down { position: Position },
    Up { position: Position },
}

impl MouseEvent {
    pub open spec fn spec_position(self) -> Position {
        match self {
            MouseEvent::Move { position } => position,
            MouseEvent::Down { position } => position,
            MouseEvent::Up { position } => position,
        }
    }

    /// The pixel that the event happened at.
    #[verifier::when_used_as_spec(spec_position)]
    pub fn position(self) -> (p: Position)
        ensures
            p == self.spec_position(),
    {
        match self {
            MouseEvent::Move { position } => position,
            MouseEvent::Down { position } => position,
            MouseEvent::Up { position } => position,
        }
    }
}

/// An event of the host.
#[derive(Debug, Clone, Copy, PartialEq, Eq, Structural)]
pub enum Event {
    /// A key was pressed. The game has no use for keys.
    Key,
    Mouse(MouseEvent),
    /// The timer set under this tag has run out.
    Timeout(u32),
    WindowResized(Size),
}

} // verus!
