use vstd::prelude::*;

use crate::grid::{Cell, Grid, Point};
use crate::player::Player;
use crate::Active;

verus! {

/// How a cell is shown on a board.
#[derive(Clone, Copy, Debug, PartialEq, Eq, Structural)]
pub enum Shade {
    /// An unhit ship cell, on a board whose ships are shown.
    Ship,
    /// A ship cell that has been hit.
    Wreck,
    /// A cell not fired upon that shows no ship.
    Water,
    /// A cell without a ship that has been fired upon.
    Splash,
}

/// The shade of cell `c` on a board that shows its ships when `with_ships`.
pub open spec fn shade_of(c: Cell, with_ships: bool) -> Shade {
    match (c.ship, c.hit) {
        (Some(_), false) => if with_ships {
            Shade::Ship
        } else {
            Shade::Water
        },
        (Some(_), true) => Shade::Wreck,
        (None, false) => Shade::Water,
        (None, true) => Shade::Splash,
    }
}

/// Layout of one cell of a board: the cell, whether ships are shown, and
/// whether the cursor is on it.
pub struct CellWidget<'a> {
    pub cell: &'a Cell,
    pub with_ships: bool,
    pub is_active: bool,
}

impl<'a> CellWidget<'a> {
    pub fn new(point: Point, cell: &'a Cell, with_ships: bool, cursor: Option<Point>) -> (r: Self)
        ensures
            *r.cell == *cell,
            r.with_ships == with_ships,
            r.is_active == (cursor == Some(point)),
    {
        let is_active = match cursor {
            Some(c) => c == point,
            None => false,
        };
        CellWidget { cell, with_ships, is_active }
    }

    /// How the cell is shown.
    pub fn shade(&self) -> (r: Shade)
        ensures
            r == shade_of(*self.cell, self.with_ships),
    {
        match (self.cell.ship, self.cell.hit) {
            (Some(_), false) => if self.with_ships {
                Shade::Ship
            } else {
                Shade::Water
            },
            (Some(_), true) => Shade::Wreck,
            (None, false) => Shade::Water,
            (None, true) => Shade::Splash,
        }
    }

    /// Lines of text inside a cell.
    pub fn content_height() -> (r: usize)
        ensures
            r == 1,
    {
        1
    }

    /// Columns of text inside a cell.
    pub fn content_width() -> (r: usize)
        ensures
            r == 2,
    {
        2
    }

    /// Height of a cell with its bottom border.
    pub fn box_height() -> (r: usize)
        ensures
            r == 2,
    {
        CellWidget::content_height() + 1
    }

    /// Width of a cell with its right border.
    pub fn box_width() -> (r: usize)
        ensures
            r == 3,
    {
        CellWidget::content_width() + 1
    }
}

/// Layout of a whole board: the grid, whether ships are shown, and the
/// cursor, if it is on this board.
pub struct GridWidget<'a> {
    pub grid: &'a Grid,
    pub with_ships: bool,
    pub cursor: Option<Point>,
}

proof fn lemma_small_multiple(size: int, k: int)
    requires
        0 <= size,
        size * size <= usize::MAX,
        0 <= k <= 3,
    ensures
        k * size <= usize::MAX,
{
    if size >= 3 {
        assert(k * size <= size * size) by (nonlinear_arith)
            requires
                0 <= k <= 3,
                3 <= size,
        ;
    } else {
        assert(k * size <= 9) by (nonlinear_arith)
            requires
                0 <= k <= 3,
                0 <= size < 3,
        ;
    }
}

impl<'a> GridWidget<'a> {
    pub fn new(grid: &'a Grid, with_ships: bool, cursor: Option<Point>) -> (r: Self)
        ensures
            *r.grid == *grid,
            r.with_ships == with_ships,
            r.cursor == cursor,
    {
        GridWidget { grid, with_ships, cursor }
    }

    /// Columns taken by the cells of the board.
    pub fn content_width(&self) -> (r: usize)
        requires
            self.grid.wf(),
        ensures
            r == 3 * self.grid.size,
    {
        proof {
            lemma_small_multiple(self.grid.size as int, 3);
        }
        CellWidget::box_width() * self.grid.size
    }

    /// Columns taken by the board.
    pub fn box_width(&self) -> (r: usize)
        requires
            self.grid.wf(),
        ensures
            r == 3 * self.grid.size,
    {
        self.content_width()
    }

    /// Lines taken by the cells of the board.
    pub fn content_height(&self) -> (r: usize)
        requires
            self.grid.wf(),
        ensures
            r == 2 * self.grid.size,
    {
        proof {
            lemma_small_multiple(self.grid.size as int, 2);
        }
        CellWidget::box_height() * self.grid.size
    }

    /// Lines taken by the board.
    pub fn box_height(&self) -> (r: usize)
        requires
            self.grid.wf(),
        ensures
            r == 2 * self.grid.size,
    {
        self.content_height()
    }
}

/// Layout of one player's side: their board, whether ships are shown, and
/// the cursor, if it is on this board.
pub struct PlayerWidget<'a> {
    pub player: &'a Player<Active>,
    pub with_ships: bool,
    pub cursor: Option<Point>,
}

impl<'a> PlayerWidget<'a> {
    pub fn new(player: &'a Player<Active>, with_ships: bool, cursor: Option<Point>) -> (r: Self)
        ensures
            *r.player == *player,
            r.with_ships == with_ships,
            r.cursor == cursor,
    {
        PlayerWidget { player, with_ships, cursor }
    }

    /// The board of the player's side.
    pub fn grid_widget(&self) -> (r: GridWidget<'a>)
        ensures
            *r.grid == self.player.grid,
            r.with_ships == self.with_ships,
            r.cursor == self.cursor,
    {
        GridWidget::new(&self.player.grid, self.with_ships, self.cursor)
    }
}

} // verus!
