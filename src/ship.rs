use vstd::prelude::*;

use crate::rng::random_below;

verus! {

/// A catalog entry: a fixed-length piece that can be placed on a grid.
#[derive(Copy, Clone, Debug, PartialEq, Eq, Structural, Hash)]
pub enum Ship {
    Carrier,
    Battleship,
    Cruiser,
    Submarine,
    Destroyer,
}

/// The whole catalog, in its fixed order.
pub open spec fn catalog() -> Seq<Ship> {
    seq![Ship::Carrier, Ship::Battleship, Ship::Cruiser, Ship::Submarine, Ship::Destroyer]
}

/// The catalog entries that fit on a grid of side `grid_size`, in catalog order.
pub open spec fn ships_for_grid(grid_size: int) -> Seq<Ship> {
    catalog().filter(|s: Ship| s.spec_length() <= grid_size)
}

impl Ship {
    /// Number of cells the ship covers.
    pub open spec fn spec_length(self) -> nat {
        match self {
            Ship::Carrier => 5,
            Ship::Battleship => 4,
            Ship::Cruiser => 3,
            Ship::Submarine => 3,
            Ship::Destroyer => 2,
        }
    }

    pub fn length(&self) -> (r: usize)
        ensures
            r == self.spec_length(),
    {
        match self {
            Ship::Carrier => 5,
            Ship::Battleship => 4,
            Ship::Cruiser => 3,
            Ship::Submarine => 3,
            Ship::Destroyer => 2,
        }
    }

    /// The ships to place on a grid of side `grid_size`: the catalog entries
    /// no longer than the side, in catalog order.
    pub fn for_grid(grid_size: usize) -> (r: Vec<Ship>)
        ensures
            r@ == ships_for_grid(grid_size as int),
    {
        let all: [Ship; 5] = [
            Ship::Carrier,
            Ship::Battleship,
            Ship::Cruiser,
            Ship::Submarine,
            Ship::Destroyer,
        ];
        let ghost pred = |s: Ship| s.spec_length() <= grid_size;
        let mut r: Vec<Ship> = Vec::new();
        let mut i: usize = 0;
        while i < 5
            invariant
                0 <= i <= 5,
                all@ == catalog(),
                pred == (|s: Ship| s.spec_length() <= grid_size),
                r@ == catalog().take(i as int).filter(pred),
            decreases 5 - i,
        {
            let s = all[i];
            assert(catalog().take(i + 1).drop_last() == catalog().take(i as int));
            assert(catalog().take(i + 1).last() == s);
            proof {
                reveal(Seq::filter);
            }
            if s.length() <= grid_size {
                r.push(s);
            }
            assert(r@ == catalog().take(i + 1).filter(pred));
            i = i + 1;
        }
        assert(catalog().take(5) == catalog());
        r
    }
}

/// The axis along which a ship extends from its origin.
#[derive(Copy, Clone, Debug, PartialEq, Eq, Structural, Hash)]
pub enum Direction {
    Horizontal,
    Vertical,
}

impl Direction {
    /// Unit step along the first axis.
    pub open spec fn spec_dx(self) -> int {
        match self {
            Direction::Horizontal => 1,
            Direction::Vertical => 0,
        }
    }

    /// Unit step along the second axis.
    pub open spec fn spec_dy(self) -> int {
        match self {
            Direction::Horizontal => 0,
            Direction::Vertical => 1,
        }
    }

    /// Either direction, drawn with equal odds.
    pub fn random() -> (r: Direction) {
        if random_below(2) == 0 {
            Direction::Horizontal
        } else {
            Direction::Vertical
        }
    }

    /// The unit vector of the direction.
    pub fn step(&self) -> (r: (usize, usize))
        ensures
            r.0 == self.spec_dx(),
            r.1 == self.spec_dy(),
    {
        match self {
            Direction::Horizontal => (1, 0),
            Direction::Vertical => (0, 1),
        }
    }
}

} // verus!
