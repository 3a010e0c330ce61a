//! The two sides of a game and the turn alternation between them.

use vstd::prelude::*;

verus! {

/// One of the two sides. `Black` sits at the high row indices of the starting
/// board and moves first.
#[derive(Copy, Clone, Debug, PartialEq, Eq, Structural)]
pub enum Player {
    Black,
    White,
}

impl Player {
    /// The other side.
    pub open spec fn opponent(self) -> Player {
        match self {
            Player::White => Player::Black,
            Player::Black => Player::White,
        }
    }

    /// Returns the opponent of `self`.
    pub fn switch(&self) -> (r: Player)
        ensures
            r == self.opponent(),
    {
        match self {
            Player::White => Player::Black,
            Player::Black => Player::White,
        }
    }
}

} // verus!
