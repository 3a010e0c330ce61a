//! A submove: one atomic relocation of a piece, either a single diagonal
//! step or a single jump — never a multi-jump chain.

use vstd::prelude::*;

use crate::board::Position;

verus! {

/// A single-step move descriptor: source and destination cells.
#[derive(Copy, Clone, Debug, PartialEq, Eq, Structural)]
pub struct Submove {
    pub from: Position,
    pub to: Position,
}

impl Submove {
    pub fn new(from: Position, to: Position) -> (r: Self)
        ensures
            r == (Submove { from, to }),
    {
        Submove { from, to }
    }

    /// Component-wise sum of the two endpoints.
    pub fn add(self, other: Submove) -> (r: Submove)
        requires
            self.from.0 + other.from.0 <= usize::MAX,
            self.from.1 + other.from.1 <= usize::MAX,
            self.to.0 + other.to.0 <= usize::MAX,
            self.to.1 + other.to.1 <= usize::MAX,
        ensures
            r.from.0 == self.from.0 + other.from.0,
            r.from.1 == self.from.1 + other.from.1,
            r.to.0 == self.to.0 + other.to.0,
            r.to.1 == self.to.1 + other.to.1,
    {
        Submove { from: self.from.add(other.from), to: self.to.add(other.to) }
    }

    /// Component-wise difference of the two endpoints.
    pub fn sub(self, other: Submove) -> (r: Submove)
        requires
            other.from.0 <= self.from.0,
            other.from.1 <= self.from.1,
            other.to.0 <= self.to.0,
            other.to.1 <= self.to.1,
        ensures
            r.from.0 == self.from.0 - other.from.0,
            r.from.1 == self.from.1 - other.from.1,
            r.to.0 == self.to.0 - other.to.0,
            r.to.1 == self.to.1 - other.to.1,
    {
        Submove { from: self.from.sub(other.from), to: self.to.sub(other.to) }
    }
}

} // verus!
