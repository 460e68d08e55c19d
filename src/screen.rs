use vstd::prelude::*;
use vstd::string::*;

use crate::cursor::{step_down, step_left, step_right, step_up, Cursor};
use crate::game::{lemma_outcome, outcome, Game, GameResult};
use crate::grid::{Fire, Grid};
use crate::player::random_shot;
use crate::Active;

verus! {

/// A key press, as the interactive game reads it.
#[derive(Clone, Copy, Debug, PartialEq, Eq, Structural)]
pub enum Key {
    Quit,
    Up,
    Left,
    Down,
    Right,
    Fire,
}

/// The message shown once the game in `players`' state has ended.
pub open spec fn end_message(game: Game<Active>) -> Option<Seq<char>> {
    match outcome(game.players@) {
        Some(GameResult::Winner(w)) => Some(game.players@[w as int].name@ + " won!"@),
        Some(GameResult::Draw) => Some("It's a draw!"@),
        None => None,
    }
}

/// A two-player game against the computer: player 0 is the human, whose
/// ships are shown; player 1 is the computer, whose board the cursor is on.
pub struct App {
    pub game: Game<Active>,
    pub cursor: Cursor,
    pub message: Option<String>,
    pub exit: bool,
}

impl App {
    pub open spec fn wf(&self) -> bool {
        &&& self.game.wf()
        &&& self.game.players@.len() == 2
        &&& self.cursor.cols == self.game.grid_size
        &&& self.cursor.rows == self.game.grid_size
    }

    /// A screen for `game`, with the cursor in the middle of the board.
    pub fn new(game: Game<Active>) -> (r: App)
        requires
            game.wf(),
            game.players@.len() == 2,
        ensures
            r.wf(),
            r.game == game,
            r.cursor.point == crate::grid::Point(game.grid_size / 2, game.grid_size / 2),
            r.message is None,
            !r.exit,
    {
        let grid_size = game.grid_size;
        App { game, cursor: Cursor::new(grid_size, grid_size), message: None, exit: false }
    }

    fn exit(&mut self)
        ensures
            final(self).exit,
            final(self).game == old(self).game,
            final(self).cursor == old(self).cursor,
            final(self).message == old(self).message,
    {
        self.exit = true;
    }

    /// Reacts to one key press. `Quit` ends the session; the arrows move the
    /// cursor within the board; `Fire`, while the game is undecided, shoots
    /// at the cursor and, when that cell had not been hit before, lets the
    /// computer shoot back at random, then shows the result once the game
    /// has ended. Anything else changes nothing.
    pub fn handle_key(&mut self, key: Key)
        requires
            old(self).wf(),
        ensures
            final(self).wf(),
            key != Key::Quit ==> final(self).exit == old(self).exit,
            key != Key::Fire ==> final(self).game == old(self).game,
            key != Key::Fire ==> final(self).message == old(self).message,
            key == Key::Fire ==> final(self).cursor == old(self).cursor,
            key == Key::Quit ==> final(self).exit && final(self).cursor == old(self).cursor,
            key == Key::Up ==> final(self).cursor.point == step_up(old(self).cursor.point),
            key == Key::Left ==> final(self).cursor.point == step_left(old(self).cursor.point),
            key == Key::Down && old(self).cursor.rows > 0 ==> final(self).cursor.point == step_down(
                old(self).cursor.point,
                old(self).cursor.rows,
            ),
            key == Key::Right && old(self).cursor.cols > 0 ==> final(self).cursor.point
                == step_right(old(self).cursor.point, old(self).cursor.cols),
            final(self).cursor.cols == old(self).cursor.cols,
            final(self).cursor.rows == old(self).cursor.rows,
            key == Key::Fire ==> {
                let p = old(self).cursor.point;
                let target = old(self).game.players@[1].grid;
                if outcome(old(self).game.players@) is Some || !target.in_bounds(p.0 as int, p.1 as int)
                    || target.cell(p.0 as int, p.1 as int).hit {
                    *final(self) == *old(self)
                } else {
                    &&& final(self).game.grid_size == old(self).game.grid_size
                    &&& exists|f: Fire|
                        Grid::fired(target, final(self).game.players@[1].grid, p, Ok(f))
                    &&& final(self).game.players@[1].name == old(self).game.players@[1].name
                    &&& exists|r: Option<(crate::grid::Point, Fire)>|
                        random_shot(old(self).game.players@[0], final(self).game.players@[0], r)
                    &&& match end_message(final(self).game) {
                        Some(m) => final(self).message matches Some(s) && s@ == m,
                        None => final(self).message == old(self).message,
                    }
                }
            },
    {
        match key {
            Key::Quit => self.exit(),
            Key::Up => self.cursor.up(),
            Key::Left => self.cursor.left(),
            Key::Down => {
                if self.cursor.rows > 0 {
                    self.cursor.down();
                }
            },
            Key::Right => {
                if self.cursor.cols > 0 {
                    self.cursor.right();
                }
            },
            Key::Fire => self.fire(),
        }
    }

    fn fire(&mut self)
        requires
            old(self).wf(),
        ensures
            final(self).wf(),
            final(self).exit == old(self).exit,
            final(self).cursor == old(self).cursor,
            ({
                let p = old(self).cursor.point;
                let target = old(self).game.players@[1].grid;
                if outcome(old(self).game.players@) is Some || !target.in_bounds(p.0 as int, p.1 as int)
                    || target.cell(p.0 as int, p.1 as int).hit {
                    *final(self) == *old(self)
                } else {
                    &&& final(self).game.grid_size == old(self).game.grid_size
                    &&& exists|f: Fire|
                        Grid::fired(target, final(self).game.players@[1].grid, p, Ok(f))
                    &&& final(self).game.players@[1].name == old(self).game.players@[1].name
                    &&& exists|r: Option<(crate::grid::Point, Fire)>|
                        random_shot(old(self).game.players@[0], final(self).game.players@[0], r)
                    &&& match end_message(final(self).game) {
                        Some(m) => final(self).message matches Some(s) && s@ == m,
                        None => final(self).message == old(self).message,
                    }
                }
            }),
    {
        if self.game.result().is_some() {
            return;
        }
        let point = self.cursor.point;
        match self.game.players[1].grid.at(point) {
            None => {
                return;
            },
            Some(cell) => {
                if cell.hit {
                    return;
                }
            },
        }
        let ghost before = self.game.players@;
        let shot = self.game.players[1].fire_at(point);
        let answer = self.game.players[0].fire_at_random();
        proof {
            assert(shot is Ok);
            let f = shot->Ok_0;
            assert(Grid::fired(before[1].grid, self.game.players@[1].grid, point, Ok(f)));
            assert(random_shot(before[0], self.game.players@[0], answer));
            assert forall|i: int| 0 <= i < self.game.players@.len() implies (
            #[trigger] self.game.players@[i]).wf() && self.game.players@[i].grid.size
                == self.game.grid_size by {
                assert(i == 0 || i == 1);
            }
        }
        match self.game.result() {
            Some(GameResult::Winner(w)) => {
                proof {
                    lemma_outcome(self.game.players@, w);
                }
                let mut m = self.game.players[w].name.clone();
                m.append(" won!");
                self.message = Some(m);
            },
            Some(GameResult::Draw) => {
                self.message = Some(String::from_str("It's a draw!"));
            },
            None => {},
        }
    }
}

} // verus!
