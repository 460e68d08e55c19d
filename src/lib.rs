//! A Battleship-style game engine: ships are placed on private square grids,
//! then players take turns firing at each other until at most one player has
//! an unhit ship cell left.
pub mod cursor;
pub mod error;
pub mod game;
pub mod grid;
pub mod player;
mod rng;
pub mod screen;
pub mod ship;
pub mod widgets;

pub use crate::cursor::Cursor;
pub use crate::error::Error;
pub use crate::game::{Game, GameResult, Turn};
pub use crate::grid::{Cell, Fire, Grid, Point};
pub use crate::player::Player;
pub use crate::screen::{App, Key};
pub use crate::ship::{Direction, Ship};
pub use crate::widgets::{CellWidget, GridWidget, PlayerWidget, Shade};

use vstd::prelude::*;

verus! {

/// Marks a player or a game still in setup.
#[derive(Debug, PartialEq, Eq)]
pub struct New;

/// Marks a player or a game in combat.
#[derive(Debug, PartialEq, Eq)]
pub struct Active;

} // verus!
