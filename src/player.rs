use std::marker::PhantomData;

use vstd::prelude::*;
use vstd::string::*;

use crate::error::Error;
use crate::grid::{Cell, Fire, Grid, Point};
use crate::ship::{ships_for_grid, Direction, Ship};
use crate::{Active, New};

verus! {

/// Number of occupied cells in `cells`.
pub open spec fn count_ship_cells(cells: Seq<Cell>) -> nat
    decreases cells.len(),
{
    if cells.len() == 0 {
        0
    } else {
        count_ship_cells(cells.drop_last()) + if cells.last().ship is Some {
            1nat
        } else {
            0nat
        }
    }
}

/// Number of occupied cells in `cells` that have not been hit.
pub open spec fn count_unhit_ship_cells(cells: Seq<Cell>) -> nat
    decreases cells.len(),
{
    if cells.len() == 0 {
        0
    } else {
        count_unhit_ship_cells(cells.drop_last()) + if cells.last().ship is Some
            && !cells.last().hit {
            1nat
        } else {
            0nat
        }
    }
}

/// Some occupied cell of `cells` has not been hit.
pub open spec fn has_unhit_ship_cell(cells: Seq<Cell>) -> bool {
    exists|k: int| 0 <= k < cells.len() && (#[trigger] cells[k]).ship is Some && !cells[k].hit
}

proof fn lemma_count_unhit(cells: Seq<Cell>)
    ensures
        (count_unhit_ship_cells(cells) > 0) == has_unhit_ship_cell(cells),
    decreases cells.len(),
{
    if cells.len() > 0 {
        let rest = cells.drop_last();
        lemma_count_unhit(rest);
        if has_unhit_ship_cell(rest) {
            let k = choose|k: int| 0 <= k < rest.len() && (#[trigger] rest[k]).ship is Some && !rest[k].hit;
            assert(cells[k] == rest[k]);
        }
        if has_unhit_ship_cell(cells) {
            let k = choose|k: int| 0 <= k < cells.len() && (#[trigger] cells[k]).ship is Some && !cells[k].hit;
            if k < cells.len() - 1 {
                assert(rest[k] == cells[k]);
            }
        }
    }
}

/// A named participant and the grid their fleet stands on. `Stage` is
/// `New` while ships are being placed and `Active` once combat began.
#[derive(Debug)]
pub struct Player<Stage> {
    pub stage: PhantomData<Stage>,
    pub name: String,
    pub to_place: Vec<Ship>,
    pub grid: Grid,
}

impl<Stage> Player<Stage> {
    pub open spec fn wf(&self) -> bool {
        self.grid.wf()
    }

    /// Some occupied cell of the player's grid is still unhit.
    pub open spec fn alive(&self) -> bool {
        has_unhit_ship_cell(self.grid.cells@)
    }
}

/// `after` is `before` with `ship` placed at some origin and direction that
/// `before` accepts.
pub open spec fn placed_somewhere(before: Grid, after: Grid, ship: Ship) -> bool {
    exists|o: Point, d: Direction|
        before.placement(ship, o, d) is Ok && #[trigger] Grid::placed(before, after, ship, o, d)
}

/// `after` is `before` with each of `ships` placed in turn, each where the
/// grid of that moment accepted it.
pub open spec fn placed_in_order(before: Grid, after: Grid, ships: Seq<Ship>) -> bool
    decreases ships.len(),
{
    if ships.len() == 0 {
        after == before
    } else {
        exists|mid: Grid|
            placed_in_order(before, mid, ships.drop_last()) && #[trigger] placed_somewhere(
                mid,
                after,
                ships.last(),
            )
    }
}

/// `b` carries the name, queue and grid of `a`.
pub open spec fn same_player<A, B>(a: Player<A>, b: Player<B>) -> bool {
    &&& b.name == a.name
    &&& b.to_place == a.to_place
    &&& b.grid == a.grid
}

impl Player<New> {
    /// A player named `name` with a blank grid of side `grid_size`, who has
    /// every catalog ship that fits the grid still to place.
    pub fn new(name: &str, grid_size: usize) -> (r: Player<New>)
        requires
            grid_size * grid_size <= usize::MAX,
        ensures
            r.wf(),
            r.name@ == name@,
            r.to_place@ == ships_for_grid(grid_size as int),
            r.grid.size == grid_size,
            forall|k: int| 0 <= k < r.grid.cells@.len() ==> #[trigger] r.grid.cells@[k] == Cell::blank(),
    {
        Player {
            stage: PhantomData,
            name: String::from_str(name),
            to_place: Ship::for_grid(grid_size),
            grid: Grid::new(grid_size),
        }
    }

    /// The next ship waiting to be placed.
    pub fn get_ship_to_place(&self) -> (r: Option<Ship>)
        ensures
            r == (if self.to_place@.len() > 0 {
                Some(self.to_place@[0])
            } else {
                None
            }),
    {
        if self.to_place.len() > 0 {
            Some(self.to_place[0])
        } else {
            None
        }
    }

    fn get_place_ship_index(&self, ship: Ship) -> (r: Result<usize, Error>)
        ensures
            match r {
                Ok(i) => self.to_place@.index_of_first(ship) == Some(i as int),
                Err(e) => e == Error::UnexpectedShip(ship) && !self.to_place@.contains(ship),
            },
    {
        proof {
            self.to_place@.index_of_first_ensures(ship);
        }
        let mut i: usize = 0;
        while i < self.to_place.len()
            invariant
                i <= self.to_place@.len(),
                forall|j: int| 0 <= j < i ==> self.to_place@[j] != ship,
            decreases self.to_place@.len() - i,
        {
            if self.to_place[i] == ship {
                proof {
                    self.to_place@.index_of_first_ensures(ship);
                    assert(self.to_place@.contains(ship));
                    let j = self.to_place@.index_of_first(ship)->Some_0;
                    if j < i {
                        assert(self.to_place@[j] != ship);
                    }
                    if i < j {
                        assert(self.to_place@[i as int] == ship);
                    }
                }
                return Ok(i);
            }
            i = i + 1;
        }
        Err(Error::UnexpectedShip(ship))
    }

    fn remove_ship_to_place(&mut self, ship: Ship) -> (r: Result<(), Error>)
        ensures
            final(self).name == old(self).name,
            final(self).grid == old(self).grid,
            old(self).to_place@.contains(ship) ==> r is Ok && final(self).to_place@ == old(
                self,
            ).to_place@.remove_value(ship) && final(self).to_place@.len() == old(
                self,
            ).to_place@.len() - 1,
            !old(self).to_place@.contains(ship) ==> r == Err::<(), Error>(
                Error::UnexpectedShip(ship),
            ) && *final(self) == *old(self),
    {
        let index = match self.get_place_ship_index(ship) {
            Ok(i) => i,
            Err(e) => return Err(e),
        };
        proof {
            self.to_place@.index_of_first_ensures(ship);
        }
        self.to_place.remove(index);
        Ok(())
    }

    /// Places `ship` from `point` along `direction`. Refused, with the player
    /// left as they were, when the ship is not waiting to be placed, or when
    /// the grid refuses the placement; on success the ship leaves the queue.
    pub fn place_ship(&mut self, ship: Ship, point: Point, direction: Direction) -> (r: Result<
        (),
        Error,
    >)
        requires
            old(self).wf(),
        ensures
            final(self).wf(),
            final(self).name == old(self).name,
            final(self).grid.size == old(self).grid.size,
            r == (if old(self).to_place@.contains(ship) {
                old(self).grid.placement(ship, point, direction)
            } else {
                Err(Error::UnexpectedShip(ship))
            }),
            r is Err ==> *final(self) == *old(self),
            r is Ok ==> {
                &&& Grid::placed(old(self).grid, final(self).grid, ship, point, direction)
                &&& final(self).to_place@ == old(self).to_place@.remove_value(ship)
                &&& final(self).to_place@.len() == old(self).to_place@.len() - 1
            },
    {
        // Check that the ship is still to be placed before touching the grid.
        if let Err(e) = self.get_place_ship_index(ship) {
            return Err(e);
        }
        proof {
            self.to_place@.index_of_first_ensures(ship);
        }
        if let Err(e) = self.grid.place_ship(ship, point, direction) {
            return Err(e);
        }
        let removed = self.remove_ship_to_place(ship);
        assert(removed is Ok);
        Ok(())
    }

    fn place_randomly(&mut self, ship: Ship) -> (placed: bool)
        requires
            old(self).wf(),
            old(self).to_place@.contains(ship),
        ensures
            final(self).wf(),
            final(self).name == old(self).name,
            final(self).grid.size == old(self).grid.size,
            placed ==> final(self).to_place@ == old(self).to_place@.remove_value(ship),
            placed ==> final(self).to_place@.len() == old(self).to_place@.len() - 1,
            placed ==> placed_somewhere(old(self).grid, final(self).grid, ship),
            !placed ==> *final(self) == *old(self),
    {
        let size = self.grid.size;
        if size == 0 {
            return false;
        }
        let attempts: usize = size * size;
        let mut n: usize = 0;
        while n < attempts
            invariant
                self.wf(),
                *self == *old(self),
                self.to_place@.contains(ship),
                self.grid.size == size,
                size > 0,
            decreases attempts - n,
        {
            let point = self.grid.random_point();
            let direction = Direction::random();
            if self.place_ship(ship, point, direction).is_ok() {
                assert(Grid::placed(old(self).grid, self.grid, ship, point, direction));
                return true;
            }
            n = n + 1;
        }
        false
    }

    fn place_first_fit(&mut self, ship: Ship) -> (placed: bool)
        requires
            old(self).wf(),
            old(self).to_place@.contains(ship),
        ensures
            final(self).wf(),
            final(self).name == old(self).name,
            final(self).grid.size == old(self).grid.size,
            placed ==> final(self).to_place@ == old(self).to_place@.remove_value(ship),
            placed ==> final(self).to_place@.len() == old(self).to_place@.len() - 1,
            placed ==> placed_somewhere(old(self).grid, final(self).grid, ship),
            !placed ==> *final(self) == *old(self),
            !placed ==> forall|p: Point, d: Direction|
                #![trigger old(self).grid.placement(ship, p, d)]
                old(self).grid.placement(ship, p, d) is Err,
    {
        let size = self.grid.size;
        let mut y: usize = 0;
        while y < size
            invariant
                self.wf(),
                *self == *old(self),
                self.to_place@.contains(ship),
                self.grid.size == size,
                y <= size,
                forall|p: Point, d: Direction|
                    #![trigger self.grid.placement(ship, p, d)]
                    p.1 < y ==> self.grid.placement(ship, p, d) is Err,
            decreases size - y,
        {
            let mut x: usize = 0;
            while x < size
                invariant
                    self.wf(),
                    *self == *old(self),
                    self.to_place@.contains(ship),
                    self.grid.size == size,
                    y < size,
                    x <= size,
                    forall|p: Point, d: Direction|
                        #![trigger self.grid.placement(ship, p, d)]
                        p.1 < y || (p.1 == y && p.0 < x) ==> self.grid.placement(ship, p, d) is Err,
                decreases size - x,
            {
                let across = self.place_ship(ship, Point(x, y), Direction::Horizontal);
                if across.is_ok() {
                    assert(Grid::placed(old(self).grid, self.grid, ship, Point(x, y), Direction::Horizontal));
                    return true;
                }
                let down = self.place_ship(ship, Point(x, y), Direction::Vertical);
                if down.is_ok() {
                    assert(Grid::placed(old(self).grid, self.grid, ship, Point(x, y), Direction::Vertical));
                    return true;
                }
                assert(self.grid.placement(ship, Point(x, y), Direction::Horizontal) is Err);
                assert(self.grid.placement(ship, Point(x, y), Direction::Vertical) is Err);
                assert forall|p: Point, d: Direction|
                    #![trigger self.grid.placement(ship, p, d)]
                    p.1 < y || (p.1 == y && p.0 < x + 1) implies self.grid.placement(
                    ship,
                    p,
                    d,
                ) is Err by {
                    if p == Point(x, y) {
                        match d {
                            Direction::Horizontal => {},
                            Direction::Vertical => {},
                        }
                    }
                }
                x = x + 1;
            }
            y = y + 1;
        }
        assert forall|p: Point, d: Direction|
            #![trigger old(self).grid.placement(ship, p, d)]
            old(self).grid.placement(ship, p, d) is Err by {
            if p.1 >= size {
                assert(!self.grid.fits(ship, p, d));
            }
        }
        false
    }

    /// Places every ship still waiting, in queue order, each at random
    /// points and directions until one is accepted. After as many refused
    /// draws as the grid has cells, the first origin that fits (row by row,
    /// horizontal before vertical) is taken instead. Fails, with the ship
    /// named, only when no origin and direction leave room for it.
    pub fn place_ships_randomly(&mut self) -> (r: Result<(), Error>)
        requires
            old(self).wf(),
        ensures
            final(self).wf(),
            final(self).name == old(self).name,
            final(self).grid.size == old(self).grid.size,
            r is Ok ==> final(self).to_place@.len() == 0,
            r is Ok ==> placed_in_order(old(self).grid, final(self).grid, old(self).to_place@),
            r is Err ==> {
                let m = old(self).to_place@.len() - final(self).to_place@.len();
                &&& final(self).to_place@ == old(self).to_place@.skip(m)
                &&& placed_in_order(old(self).grid, final(self).grid, old(self).to_place@.take(m))
            },
            r is Err ==> final(self).to_place@.len() > 0 && r == Err::<(), Error>(
                Error::NoRoom(final(self).to_place@[0]),
            ) && forall|p: Point, d: Direction|
                #![trigger final(self).grid.placement(final(self).to_place@[0], p, d)]
                final(self).grid.placement(final(self).to_place@[0], p, d) is Err,
    {
        let ghost queue = old(self).to_place@;
        let ghost mut m: int = 0;
        proof {
            assert(queue.take(0) =~= Seq::<Ship>::empty());
            assert(queue.skip(0) =~= queue);
        }
        while self.to_place.len() > 0
            invariant
                self.wf(),
                self.name == old(self).name,
                self.grid.size == old(self).grid.size,
                queue == old(self).to_place@,
                0 <= m <= queue.len(),
                self.to_place@ == queue.skip(m),
                placed_in_order(old(self).grid, self.grid, queue.take(m)),
            decreases self.to_place@.len(),
        {
            let ship = self.to_place[0];
            assert(self.to_place@.contains(ship)) by {
                assert(self.to_place@[0] == ship);
            }
            let ghost mid = self.grid;
            proof {
                self.to_place@.index_of_first_ensures(ship);
            }
            if !self.place_randomly(ship) {
                if !self.place_first_fit(ship) {
                    return Err(Error::NoRoom(ship));
                }
            }
            proof {
                assert(self.to_place@ =~= queue.skip(m + 1));
                assert(queue.take(m + 1).drop_last() =~= queue.take(m));
                assert(queue.take(m + 1).last() == ship);
                assert(placed_somewhere(mid, self.grid, ship));
                m = m + 1;
            }
        }
        proof {
            assert(queue.take(m) =~= queue);
        }
        Ok(())
    }

    /// Every ship has been placed.
    pub fn is_ready(&self) -> (r: bool)
        ensures
            r == (self.to_place@.len() == 0),
    {
        self.to_place.len() == 0
    }

    /// Ends setup: the same player, ready for combat. Refused, with the
    /// ships still waiting, while the queue is not empty.
    pub fn ready(self) -> (r: Result<Player<Active>, Error>)
        ensures
            self.to_place@.len() == 0 ==> (r matches Ok(p) && same_player(self, p)),
            self.to_place@.len() > 0 ==> r == Err::<Player<Active>, Error>(
                Error::NotReady(self.to_place),
            ),
    {
        if !self.is_ready() {
            return Err(Error::NotReady(self.to_place));
        }
        Ok(Player { stage: PhantomData, name: self.name, to_place: self.to_place, grid: self.grid })
    }
}

/// `after` is `before` once a random shot answered `r`: `None`, with
/// nothing changed, exactly when every cell had been hit; otherwise the
/// point shot at, a cell of the grid not hit before, and the answer.
pub open spec fn random_shot(before: Player<Active>, after: Player<Active>, r: Option<(Point, Fire)>) -> bool {
    &&& after.wf()
    &&& after.name == before.name
    &&& after.to_place == before.to_place
    &&& r is None <==> before.grid.all_hit()
    &&& r is None ==> after == before
    &&& r matches Some((p, f)) ==> {
        &&& before.grid.in_bounds(p.0 as int, p.1 as int)
        &&& !before.grid.cell(p.0 as int, p.1 as int).hit
        &&& Grid::fired(before.grid, after.grid, p, Ok(f))
    }
}

impl Player<Active> {
    /// Fires at `point` on this player's grid; see `Grid::fire_at`.
    pub fn fire_at(&mut self, point: Point) -> (r: Result<Fire, Error>)
        requires
            old(self).wf(),
        ensures
            final(self).wf(),
            final(self).name == old(self).name,
            final(self).to_place == old(self).to_place,
            Grid::fired(old(self).grid, final(self).grid, point, r),
    {
        self.grid.fire_at(point)
    }

    /// Fires at a cell that has not been hit yet: random points are drawn
    /// until one lands on such a cell, and after as many draws as the grid
    /// has cells the first unhit cell, row by row, is taken. `None`, with
    /// nothing changed, only when every cell has been hit.
    pub fn fire_at_random(&mut self) -> (r: Option<(Point, Fire)>)
        requires
            old(self).wf(),
        ensures
            random_shot(*old(self), *final(self), r),
    {
        let size = self.grid.size;
        let attempts: usize = size * size;
        let mut n: usize = 0;
        if size > 0 {
            while n < attempts
                invariant
                    self.wf(),
                    *self == *old(self),
                    self.grid.size == size,
                    size > 0,
                decreases attempts - n,
            {
                let (point, cell) = self.grid.random_cell();
                if !cell.hit {
                    let r = self.fire_at(point);
                    if let Ok(f) = r {
                        return Some((point, f));
                    }
                }
                n = n + 1;
            }
        }
        let mut y: usize = 0;
        while y < size
            invariant
                self.wf(),
                *self == *old(self),
                self.grid.size == size,
                y <= size,
                forall|x2: int, y2: int|
                    #![trigger self.grid.cell(x2, y2)]
                    0 <= x2 < size && 0 <= y2 < y ==> self.grid.cell(x2, y2).hit,
            decreases size - y,
        {
            let mut x: usize = 0;
            while x < size
                invariant
                    self.wf(),
                    *self == *old(self),
                    self.grid.size == size,
                    y < size,
                    x <= size,
                    forall|x2: int, y2: int|
                        #![trigger self.grid.cell(x2, y2)]
                        0 <= x2 < size && 0 <= y2 < y ==> self.grid.cell(x2, y2).hit,
                    forall|x2: int| #![trigger self.grid.cell(x2, y as int)]
                        0 <= x2 < x ==> self.grid.cell(x2, y as int).hit,
                decreases size - x,
            {
                let point = Point(x, y);
                if let Some(cell) = self.grid.at(point) {
                    if !cell.hit {
                        let r = self.fire_at(point);
                        if let Ok(f) = r {
                            return Some((point, f));
                        }
                    }
                }
                x = x + 1;
            }
            y = y + 1;
        }
        None
    }

    /// Number of occupied cells on the grid, hit or not.
    pub fn num_ships_total(&self) -> (r: usize)
        ensures
            r == count_ship_cells(self.grid.cells@),
    {
        let mut n: usize = 0;
        let mut k: usize = 0;
        while k < self.grid.cells.len()
            invariant
                k <= self.grid.cells@.len(),
                n == count_ship_cells(self.grid.cells@.take(k as int)),
                n <= k,
            decreases self.grid.cells@.len() - k,
        {
            assert(self.grid.cells@.take(k + 1).drop_last() == self.grid.cells@.take(k as int));
            if self.grid.cells[k].ship.is_some() {
                n = n + 1;
            }
            k = k + 1;
        }
        assert(self.grid.cells@.take(k as int) == self.grid.cells@);
        n
    }

    /// Number of occupied cells on the grid that have not been hit.
    pub fn num_ships_alive(&self) -> (r: usize)
        ensures
            r == count_unhit_ship_cells(self.grid.cells@),
    {
        let mut n: usize = 0;
        let mut k: usize = 0;
        while k < self.grid.cells.len()
            invariant
                k <= self.grid.cells@.len(),
                n == count_unhit_ship_cells(self.grid.cells@.take(k as int)),
                n <= k,
            decreases self.grid.cells@.len() - k,
        {
            assert(self.grid.cells@.take(k + 1).drop_last() == self.grid.cells@.take(k as int));
            if self.grid.cells[k].ship.is_some() && !self.grid.cells[k].hit {
                n = n + 1;
            }
            k = k + 1;
        }
        assert(self.grid.cells@.take(k as int) == self.grid.cells@);
        n
    }

    /// The player still has an occupied cell that has not been hit; false
    /// exactly when every occupied cell of the grid has been hit.
    pub fn is_alive(&self) -> (r: bool)
        ensures
            r == self.alive(),
            !r <==> forall|k: int|
                0 <= k < self.grid.cells@.len() && (#[trigger] self.grid.cells@[k]).ship is Some
                    ==> self.grid.cells@[k].hit,
    {
        proof {
            lemma_count_unhit(self.grid.cells@);
        }
        self.num_ships_alive() > 0
    }
}

} // verus!
