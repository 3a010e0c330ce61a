//! A verified rules engine for two-player checkers: board representation,
//! piece placement, move legality checking, move-candidate generation and
//! win detection. Rendering and input handling live outside the library and
//! talk to it through plain values.

pub mod board;
pub mod game;
pub mod moves;
pub mod piece;
pub mod player;
