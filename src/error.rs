use vstd::prelude::*;

use crate::ship::Ship;

verus! {

/// Why an operation of the game was refused. Every refusal leaves the state
/// it was asked to change as it was.
#[derive(Clone, Debug, PartialEq, Eq)]
pub enum Error {
    /// A placement or a shot lies (partly) outside the grid.
    OutOfBounds,
    /// A placement would cover a cell that already holds the given ship.
    Overlap(Ship),
    /// The ship is not (or no longer) waiting to be placed.
    UnexpectedShip(Ship),
    /// Setup is not finished: the ships still waiting to be placed, or, for a
    /// game, none when fewer than two players are ready.
    NotReady(Vec<Ship>),
    /// No origin and direction on the grid leave room for the ship.
    NoRoom(Ship),
}

} // verus!
