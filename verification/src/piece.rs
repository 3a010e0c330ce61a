//! Piece rank and ownership: a piece is a normal man or a king, owned by one
//! of the two players. Pieces are immutable values; promotion replaces a
//! piece wholesale rather than mutating it.

use vstd::prelude::*;

use crate::player::Player;

verus! {

/// A piece on the board: a normal man or a king, owned by a player.
#[derive(Copy, Clone, Debug, PartialEq, Eq, Structural)]
pub enum Piece {
    Normal(Player),
    King(Player),
}

impl Piece {
    /// The player that owns this piece.
    pub open spec fn owner(self) -> Player {
        match self {
            Piece::Normal(v) => v,
            Piece::King(v) => v,
        }
    }

    /// Whether this piece has been promoted.
    pub open spec fn is_king(self) -> bool {
        self is King
    }

    /// A normal white man.
    pub fn white() -> (r: Piece)
        ensures
            r == Piece::Normal(Player::White),
    {
        Piece::Normal(Player::White)
    }

    /// A normal black man.
    pub fn black() -> (r: Piece)
        ensures
            r == Piece::Normal(Player::Black),
    {
        Piece::Normal(Player::Black)
    }

    /// A white king.
    pub fn white_king() -> (r: Piece)
        ensures
            r == Piece::King(Player::White),
    {
        Piece::King(Player::White)
    }

    /// A black king.
    pub fn black_king() -> (r: Piece)
        ensures
            r == Piece::King(Player::Black),
    {
        Piece::King(Player::Black)
    }

    /// Returns the player that owns this piece.
    pub fn player(&self) -> (r: Player)
        ensures
            r == self.owner(),
    {
        match *self {
            Piece::Normal(v) => v,
            Piece::King(v) => v,
        }
    }
}

} // verus!
