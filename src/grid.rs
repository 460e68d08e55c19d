use vstd::prelude::*;
use vstd::string::*;

use crate::error::Error;
use crate::rng::random_below;
use crate::ship::{Direction, Ship};

verus! {

/// A coordinate pair: column first, then row.
#[derive(Clone, Copy, Debug, PartialEq, Eq, Structural, Hash)]
pub struct Point(pub usize, pub usize);

/// The state of one grid coordinate: its occupant, if any, and whether it
/// has been fired upon. The hit flag is never reset.
#[derive(Clone, Copy, Debug, PartialEq, Eq, Structural)]
pub struct Cell {
    pub ship: Option<Ship>,
    pub hit: bool,
}

/// What a shot did.
#[derive(Clone, Copy, Debug, PartialEq, Eq, Structural)]
pub enum Fire {
    /// Nothing was hit: an empty cell, or one that had been hit before.
    Miss,
    /// A cell of the ship was hit, and the ship still has unhit cells.
    Hit(Ship),
    /// The last unhit cell of the ship was hit.
    Sunk(Ship),
}

impl Cell {
    pub open spec fn blank() -> Cell {
        Cell { ship: None, hit: false }
    }

    pub fn new() -> (r: Cell)
        ensures
            r == Cell::blank(),
    {
        Cell { ship: None, hit: false }
    }

    pub fn has_ship(&self) -> (r: Option<Ship>)
        ensures
            r == self.ship,
    {
        self.ship
    }

    pub fn is_hit(&self) -> (r: bool)
        ensures
            r == self.hit,
    {
        self.hit
    }
}

/// Position of cell `(x, y)` in the row-major arena of a grid of side `size`.
pub open spec fn flat_index(size: int, x: int, y: int) -> int {
    y * size + x
}

/// The `i`-th cell, counting from 0, of a ship laid from `origin` along `dir`.
pub open spec fn nth_cell(origin: Point, dir: Direction, i: int) -> (int, int) {
    match dir {
        Direction::Horizontal => (origin.0 + i, origin.1 as int),
        Direction::Vertical => (origin.0 as int, origin.1 + i),
    }
}

/// Whether a ship of `len` cells laid from `origin` along `dir` covers `(x, y)`.
pub open spec fn covers(origin: Point, dir: Direction, len: int, x: int, y: int) -> bool {
    match dir {
        Direction::Horizontal => y == origin.1 && origin.0 <= x < origin.0 + len,
        Direction::Vertical => x == origin.0 && origin.1 <= y < origin.1 + len,
    }
}

/// The outcome of a shot that hit a cell held by `occupant`, where `after`
/// is the arena once the cell is marked hit.
pub open spec fn fire_outcome(after: Seq<Cell>, occupant: Option<Ship>) -> Fire {
    match occupant {
        None => Fire::Miss,
        Some(s) => if has_unhit(after, s) {
            Fire::Hit(s)
        } else {
            Fire::Sunk(s)
        },
    }
}

/// Some cell of `cells` holds `ship` and has not been hit.
pub open spec fn has_unhit(cells: Seq<Cell>, ship: Ship) -> bool {
    exists|k: int| 0 <= k < cells.len() && #[trigger] cells[k] == Cell { ship: Some(ship), hit: false }
}

/// The character that stands for a cell: occupied and unhit, occupied and
/// hit, empty and unhit, empty and hit.
pub open spec fn symbol(c: Cell) -> char {
    match (c.ship, c.hit) {
        (Some(_), false) => 'O',
        (Some(_), true) => 'X',
        (None, false) => '.',
        (None, true) => '_',
    }
}

proof fn lemma_flat_index(size: int, x1: int, y1: int, x2: int, y2: int)
    requires
        0 <= x1 < size,
        0 <= y1 < size,
        0 <= x2 < size,
        0 <= y2 < size,
    ensures
        0 <= flat_index(size, x1, y1) < size * size,
        flat_index(size, x1, y1) == flat_index(size, x2, y2) ==> x1 == x2 && y1 == y2,
{
    assert(0 <= y1 * size + x1 < size * size) by (nonlinear_arith)
        requires
            0 <= x1 < size,
            0 <= y1 < size,
    ;
    if y1 < y2 {
        assert(y1 * size + x1 < y2 * size + x2) by (nonlinear_arith)
            requires
                0 <= x1 < size,
                0 <= x2,
                y1 < y2,
        ;
    } else if y2 < y1 {
        assert(y2 * size + x2 < y1 * size + x1) by (nonlinear_arith)
            requires
                0 <= x2 < size,
                0 <= x1,
                y2 < y1,
        ;
    }
}

proof fn lemma_occupant_from(g: Grid, origin: Point, dir: Direction, len: int, k: int, i: int)
    requires
        0 <= k <= i < len,
        g.cell(nth_cell(origin, dir, i).0, nth_cell(origin, dir, i).1).ship is Some,
    ensures
        g.occupant_from(origin, dir, len, k) matches Some(s) && exists|j: int|
            k <= j < len && #[trigger] g.cell(nth_cell(origin, dir, j).0, nth_cell(origin, dir, j).1).ship
                == Some(s),
    decreases i - k,
{
    let (x, y) = nth_cell(origin, dir, k);
    match g.cell(x, y).ship {
        Some(s) => {
            assert(g.cell(nth_cell(origin, dir, k).0, nth_cell(origin, dir, k).1).ship == Some(s));
        },
        None => {
            lemma_occupant_from(g, origin, dir, len, k + 1, i);
        },
    }
}

/// A successful placement of a ship of length `L` from `(x, y)` fills
/// `(x, y)` … `(x + L − 1, y)` when horizontal and `(x, y)` … `(x, y + L − 1)`
/// when vertical; no other cell changes.
pub proof fn lemma_placed_cells(before: Grid, after: Grid, ship: Ship, origin: Point, dir: Direction)
    requires
        before.wf(),
        before.fits(ship, origin, dir),
        Grid::placed(before, after, ship, origin, dir),
    ensures
        forall|i: int|
            0 <= i < ship.spec_length() ==> #[trigger] after.cell(
                nth_cell(origin, dir, i).0,
                nth_cell(origin, dir, i).1,
            ).ship == Some(ship),
        dir == Direction::Horizontal ==> forall|i: int|
            0 <= i < ship.spec_length() ==> #[trigger] after.cell(origin.0 + i, origin.1 as int).ship
                == Some(ship),
        dir == Direction::Vertical ==> forall|i: int|
            0 <= i < ship.spec_length() ==> #[trigger] after.cell(origin.0 as int, origin.1 + i).ship
                == Some(ship),
        forall|x: int, y: int|
            before.in_bounds(x, y) && !covers(origin, dir, ship.spec_length() as int, x, y)
                ==> #[trigger] after.cell(x, y) == before.cell(x, y),
{
    assert forall|i: int| 0 <= i < ship.spec_length() implies #[trigger] after.cell(
        nth_cell(origin, dir, i).0,
        nth_cell(origin, dir, i).1,
    ).ship == Some(ship) by {
        let (x, y) = nth_cell(origin, dir, i);
        assert(after.in_bounds(x, y));
    }
    if dir == Direction::Horizontal {
        assert forall|i: int| 0 <= i < ship.spec_length() implies #[trigger] after.cell(
            origin.0 + i,
            origin.1 as int,
        ).ship == Some(ship) by {
            assert(after.in_bounds(origin.0 + i, origin.1 as int));
        }
    }
    if dir == Direction::Vertical {
        assert forall|i: int| 0 <= i < ship.spec_length() implies #[trigger] after.cell(
            origin.0 as int,
            origin.1 + i,
        ).ship == Some(ship) by {
            assert(after.in_bounds(origin.0 as int, origin.1 + i));
        }
    }
}

/// A placement one of whose cells lies outside the grid is refused as out
/// of bounds (and `place_ship` then leaves the grid unchanged).
pub proof fn lemma_out_of_bounds(g: Grid, ship: Ship, origin: Point, dir: Direction, i: int)
    requires
        0 <= i < ship.spec_length(),
        nth_cell(origin, dir, i).0 >= g.size || nth_cell(origin, dir, i).1 >= g.size,
    ensures
        g.placement(ship, origin, dir) == Err::<(), Error>(Error::OutOfBounds),
{
}

/// A placement inside the grid that covers an occupied cell is refused as
/// an overlap naming the ship on one of the covered cells (the first one
/// along the ship).
pub proof fn lemma_overlap(g: Grid, ship: Ship, origin: Point, dir: Direction, i: int)
    requires
        g.fits(ship, origin, dir),
        0 <= i < ship.spec_length(),
        g.cell(nth_cell(origin, dir, i).0, nth_cell(origin, dir, i).1).ship is Some,
    ensures
        g.placement(ship, origin, dir) matches Err(Error::Overlap(s)) && exists|j: int|
            0 <= j < ship.spec_length() && #[trigger] g.cell(
                nth_cell(origin, dir, j).0,
                nth_cell(origin, dir, j).1,
            ).ship == Some(s),
{
    lemma_occupant_from(g, origin, dir, ship.spec_length() as int, 0, i);
}

/// Firing at an occupied cell that was not hit marks it hit and answers
/// with its occupant: `Hit` while that ship keeps an unhit cell, `Sunk`
/// otherwise. Firing at the same cell again answers `Miss` and changes
/// nothing.
pub proof fn lemma_fire_twice(
    g0: Grid,
    g1: Grid,
    g2: Grid,
    p: Point,
    ship: Ship,
    r1: Result<Fire, Error>,
    r2: Result<Fire, Error>,
)
    requires
        g0.wf(),
        g0.in_bounds(p.0 as int, p.1 as int),
        g0.cell(p.0 as int, p.1 as int) == (Cell { ship: Some(ship), hit: false }),
        Grid::fired(g0, g1, p, r1),
        Grid::fired(g1, g2, p, r2),
    ensures
        g1.cell(p.0 as int, p.1 as int) == (Cell { ship: Some(ship), hit: true }),
        r1 == (if has_unhit(g1.cells@, ship) {
            Ok::<Fire, Error>(Fire::Hit(ship))
        } else {
            Ok::<Fire, Error>(Fire::Sunk(ship))
        }),
        r2 == Ok::<Fire, Error>(Fire::Miss),
        g2 == g1,
{
    lemma_flat_index(g0.size as int, p.0 as int, p.1 as int, p.0 as int, p.1 as int);
}

/// A square board of `size` × `size` cells, kept in one row-major arena.
#[derive(Debug)]
pub struct Grid {
    pub size: usize,
    pub cells: Vec<Cell>,
}

impl Grid {
    pub open spec fn wf(&self) -> bool {
        &&& self.size * self.size <= usize::MAX
        &&& self.cells@.len() == self.size * self.size
    }

    pub open spec fn in_bounds(&self, x: int, y: int) -> bool {
        0 <= x < self.size && 0 <= y < self.size
    }

    /// The cell at `(x, y)`.
    pub open spec fn cell(&self, x: int, y: int) -> Cell {
        self.cells@[flat_index(self.size as int, x, y)]
    }

    /// Every cell of a ship laid from `origin` along `dir` lies on the grid.
    pub open spec fn fits(&self, ship: Ship, origin: Point, dir: Direction) -> bool {
        match dir {
            Direction::Horizontal => origin.0 + ship.spec_length() <= self.size && origin.1
                < self.size,
            Direction::Vertical => origin.0 < self.size && origin.1 + ship.spec_length()
                <= self.size,
        }
    }

    /// The occupant of the first occupied cell among cells `i..len` of a ship
    /// laid from `origin` along `dir`.
    pub open spec fn occupant_from(&self, origin: Point, dir: Direction, len: int, i: int) -> Option<
        Ship,
    >
        decreases len - i,
    {
        if i >= len {
            None
        } else {
            let (x, y) = nth_cell(origin, dir, i);
            match self.cell(x, y).ship {
                Some(s) => Some(s),
                None => self.occupant_from(origin, dir, len, i + 1),
            }
        }
    }

    /// Row `y` as text, one symbol per cell.
    pub open spec fn row_text(&self, y: int) -> Seq<char> {
        Seq::new(self.size as nat, |x: int| symbol(self.cell(x, y)))
    }

    /// The first `rows` rows as text, separated by line breaks.
    pub open spec fn text(&self, rows: int) -> Seq<char>
        decreases rows,
    {
        if rows <= 0 {
            Seq::empty()
        } else if rows == 1 {
            self.row_text(0)
        } else {
            self.text(rows - 1) + seq!['\n'] + self.row_text(rows - 1)
        }
    }

    /// What placing `ship` at `origin` along `dir` answers: out of bounds
    /// first, else the first ship in the way, else success.
    pub open spec fn placement(&self, ship: Ship, origin: Point, dir: Direction) -> Result<(), Error> {
        if !self.fits(ship, origin, dir) {
            Err(Error::OutOfBounds)
        } else {
            match self.occupant_from(origin, dir, ship.spec_length() as int, 0) {
                Some(s) => Err(Error::Overlap(s)),
                None => Ok(()),
            }
        }
    }

    /// `after` is `before` with a ship of `ship` laid from `origin` along
    /// `dir`: the covered cells now hold it, their hit flags and every other
    /// cell untouched.
    pub open spec fn placed(before: Grid, after: Grid, ship: Ship, origin: Point, dir: Direction) -> bool {
        &&& after.wf()
        &&& after.size == before.size
        &&& forall|x: int, y: int|
            #![trigger after.cell(x, y)]
            after.in_bounds(x, y) ==> after.cell(x, y) == (if covers(
                origin,
                dir,
                ship.spec_length() as int,
                x,
                y,
            ) {
                Cell { ship: Some(ship), hit: before.cell(x, y).hit }
            } else {
                before.cell(x, y)
            })
    }

    /// `after` and `r` are what firing at `point` on `before` leaves and
    /// answers.
    pub open spec fn fired(before: Grid, after: Grid, point: Point, r: Result<Fire, Error>) -> bool {
        let x = point.0 as int;
        let y = point.1 as int;
        let c = before.cell(x, y);
        if !before.in_bounds(x, y) {
            r == Err::<Fire, Error>(Error::OutOfBounds) && after == before
        } else if c.hit {
            r == Ok::<Fire, Error>(Fire::Miss) && after == before
        } else {
            &&& after.size == before.size
            &&& after.cells@ == before.cells@.update(
                flat_index(before.size as int, x, y),
                Cell { ship: c.ship, hit: true },
            )
            &&& r == Ok::<Fire, Error>(fire_outcome(after.cells@, c.ship))
        }
    }

    /// Every cell of the grid has been fired upon.
    pub open spec fn all_hit(&self) -> bool {
        forall|x: int, y: int| #![trigger self.cell(x, y)] self.in_bounds(x, y) ==> self.cell(x, y).hit
    }

    /// A grid of `size` × `size` blank cells.
    pub fn new(size: usize) -> (r: Grid)
        requires
            size * size <= usize::MAX,
        ensures
            r.wf(),
            r.size == size,
            forall|k: int| 0 <= k < r.cells@.len() ==> #[trigger] r.cells@[k] == Cell::blank(),
    {
        let n: usize = size * size;
        let mut cells: Vec<Cell> = Vec::new();
        let mut k: usize = 0;
        while k < n
            invariant
                k <= n,
                cells@.len() == k,
                forall|j: int| 0 <= j < k ==> #[trigger] cells@[j] == Cell::blank(),
            decreases n - k,
        {
            cells.push(Cell::new());
            k = k + 1;
        }
        Grid { size, cells }
    }

    fn index_of(&self, x: usize, y: usize) -> (k: usize)
        requires
            self.wf(),
            x < self.size,
            y < self.size,
        ensures
            k == flat_index(self.size as int, x as int, y as int),
            k < self.cells@.len(),
    {
        proof {
            lemma_flat_index(self.size as int, x as int, y as int, x as int, y as int);
        }
        y * self.size + x
    }

    /// The cells, row by row.
    pub fn cells(&self) -> (r: &Vec<Cell>)
        ensures
            r@ == self.cells@,
    {
        &self.cells
    }

    /// The cell at `point`, or `None` outside the grid.
    pub fn at(&self, point: Point) -> (r: Option<Cell>)
        requires
            self.wf(),
        ensures
            r == (if self.in_bounds(point.0 as int, point.1 as int) {
                Some(self.cell(point.0 as int, point.1 as int))
            } else {
                None
            }),
    {
        if point.0 >= self.size || point.1 >= self.size {
            return None;
        }
        let k = self.index_of(point.0, point.1);
        Some(self.cells[k])
    }

    /// A point drawn uniformly from the grid.
    pub fn random_point(&self) -> (r: Point)
        requires
            self.size > 0,
        ensures
            self.in_bounds(r.0 as int, r.1 as int),
    {
        let x = random_below(self.size);
        let y = random_below(self.size);
        Point(x, y)
    }

    /// A point drawn uniformly from the grid, with its cell.
    pub fn random_cell(&self) -> (r: (Point, Cell))
        requires
            self.wf(),
            self.size > 0,
        ensures
            self.in_bounds(r.0.0 as int, r.0.1 as int),
            r.1 == self.cell(r.0.0 as int, r.0.1 as int),
    {
        let point = self.random_point();
        let k = self.index_of(point.0, point.1);
        (point, self.cells[k])
    }

    fn nth(origin: Point, dir: Direction, i: usize) -> (r: (usize, usize))
        requires
            nth_cell(origin, dir, i as int).0 <= usize::MAX,
            nth_cell(origin, dir, i as int).1 <= usize::MAX,
        ensures
            r.0 == nth_cell(origin, dir, i as int).0,
            r.1 == nth_cell(origin, dir, i as int).1,
    {
        match dir {
            Direction::Horizontal => (origin.0 + i, origin.1),
            Direction::Vertical => (origin.0, origin.1 + i),
        }
    }

    /// Lays `ship` from `origin` along `direction`. Refused, with the grid
    /// left as it was, when a cell would fall outside the grid (checked
    /// first) or when a cell is already occupied (the first such occupant is
    /// named).
    pub fn place_ship(&mut self, ship: Ship, origin: Point, direction: Direction) -> (r: Result<
        (),
        Error,
    >)
        requires
            old(self).wf(),
        ensures
            final(self).wf(),
            final(self).size == old(self).size,
            r == old(self).placement(ship, origin, direction),
            r is Err ==> *final(self) == *old(self),
            r is Ok ==> Grid::placed(*old(self), *final(self), ship, origin, direction),
    {
        let len = ship.length();
        let size = self.size;
        let fits = match direction {
            Direction::Horizontal => origin.1 < size && origin.0 <= size && size - origin.0 >= len,
            Direction::Vertical => origin.0 < size && origin.1 <= size && size - origin.1 >= len,
        };
        if !fits {
            return Err(Error::OutOfBounds);
        }
        let mut i: usize = 0;
        while i < len
            invariant
                self.wf(),
                self.size == size,
                len == ship.spec_length(),
                self.fits(ship, origin, direction),
                i <= len,
                self.occupant_from(origin, direction, len as int, 0) == self.occupant_from(
                    origin,
                    direction,
                    len as int,
                    i as int,
                ),
            decreases len - i,
        {
            let (x, y) = Self::nth(origin, direction, i);
            let k = self.index_of(x, y);
            if let Some(s) = self.cells[k].ship {
                return Err(Error::Overlap(s));
            }
            i = i + 1;
        }
        let ghost before = *self;
        let mut i: usize = 0;
        while i < len
            invariant
                self.wf(),
                self.size == size,
                before.wf(),
                before.size == size,
                before == *old(self),
                len == ship.spec_length(),
                before.fits(ship, origin, direction),
                i <= len,
                forall|x: int, y: int|
                    #![trigger self.cell(x, y)]
                    self.in_bounds(x, y) ==> self.cell(x, y) == (if covers(
                        origin,
                        direction,
                        i as int,
                        x,
                        y,
                    ) {
                        Cell { ship: Some(ship), hit: before.cell(x, y).hit }
                    } else {
                        before.cell(x, y)
                    }),
            decreases len - i,
        {
            let (x, y) = Self::nth(origin, direction, i);
            let k = self.index_of(x, y);
            let c = self.cells[k];
            let ghost prev = *self;
            assert(prev.cell(x as int, y as int) == before.cell(x as int, y as int));
            self.cells.set(k, Cell { ship: Some(ship), hit: c.hit });
            proof {
                assert forall|x2: int, y2: int|
                    #![trigger self.cell(x2, y2)]
                    self.in_bounds(x2, y2) implies self.cell(x2, y2) == (if covers(
                        origin,
                        direction,
                        i + 1,
                        x2,
                        y2,
                    ) {
                        Cell { ship: Some(ship), hit: before.cell(x2, y2).hit }
                    } else {
                        before.cell(x2, y2)
                    }) by {
                    lemma_flat_index(size as int, x2, y2, x as int, y as int);
                    assert(prev.in_bounds(x2, y2));
                    if x2 != x || y2 != y {
                        assert(self.cell(x2, y2) == prev.cell(x2, y2));
                    }
                }
            }
            i = i + 1;
        }
        Ok(())
    }

    fn has_unhit_cell(&self, ship: Ship) -> (r: bool)
        ensures
            r == has_unhit(self.cells@, ship),
    {
        let mut k: usize = 0;
        while k < self.cells.len()
            invariant
                k <= self.cells@.len(),
                forall|j: int| 0 <= j < k ==> self.cells@[j] != (Cell { ship: Some(ship), hit: false }),
            decreases self.cells@.len() - k,
        {
            if self.cells[k].ship == Some(ship) && !self.cells[k].hit {
                return true;
            }
            k = k + 1;
        }
        false
    }

    /// Fires at `point`. Outside the grid the shot is refused; a cell hit
    /// before answers `Miss` and nothing changes; otherwise the cell is marked
    /// hit and the answer names its occupant, `Sunk` when no cell of that ship
    /// is left unhit.
    pub fn fire_at(&mut self, point: Point) -> (r: Result<Fire, Error>)
        requires
            old(self).wf(),
        ensures
            final(self).wf(),
            final(self).size == old(self).size,
            Grid::fired(*old(self), *final(self), point, r),
    {
        if point.0 >= self.size || point.1 >= self.size {
            return Err(Error::OutOfBounds);
        }
        let k = self.index_of(point.0, point.1);
        let c = self.cells[k];
        if c.hit {
            return Ok(Fire::Miss);
        }
        self.cells.set(k, Cell { ship: c.ship, hit: true });
        match c.ship {
            None => Ok(Fire::Miss),
            Some(s) => if self.has_unhit_cell(s) {
                Ok(Fire::Hit(s))
            } else {
                Ok(Fire::Sunk(s))
            },
        }
    }

    /// The grid as text: one row per line, top row first, one symbol per
    /// cell (`O` occupied, `X` occupied and hit, `.` empty, `_` empty and hit).
    pub fn to_string(&self) -> (r: String)
        requires
            self.wf(),
        ensures
            r@ == self.text(self.size as int),
    {
        let size = self.size;
        let mut out = String::new();
        let mut y: usize = 0;
        while y < size
            invariant
                self.wf(),
                size == self.size,
                y <= size,
                out@ == self.text(y as int),
            decreases size - y,
        {
            let ghost start = if y == 0 {
                Seq::<char>::empty()
            } else {
                self.text(y as int) + seq!['\n']
            };
            if y > 0 {
                out.append("\n");
                proof {
                    reveal_strlit("\n");
                }
            }
            let mut x: usize = 0;
            while x < size
                invariant
                    self.wf(),
                    size == self.size,
                    y < size,
                    x <= size,
                    out@ == start + self.row_text(y as int).take(x as int),
                decreases size - x,
            {
                let k = self.index_of(x, y);
                let c = self.cells[k];
                proof {
                    reveal_strlit("O");
                    reveal_strlit("X");
                    reveal_strlit(".");
                    reveal_strlit("_");
                }
                match (c.ship, c.hit) {
                    (Some(_), false) => out.append("O"),
                    (Some(_), true) => out.append("X"),
                    (None, false) => out.append("."),
                    (None, true) => out.append("_"),
                }
                assert(self.row_text(y as int).take(x + 1) == self.row_text(y as int).take(
                    x as int,
                ).push(symbol(c)));
                x = x + 1;
            }
            assert(self.row_text(y as int).take(size as int) == self.row_text(y as int));
            y = y + 1;
        }
        out
    }
}

} // verus!
